//! The syscalls of the guest and what the host does for them.

use crate::cpu::Cpu;
use crate::err::Error;
use crate::mem::MappedSegment;
use crate::sys::write::write_action;
use vstd::prelude::*;

verus! {

/// The syscalls of the ARM EABI that the emulator knows, see
/// https://chromium.googlesource.com/chromiumos/docs/+/master/constants/syscalls.md#arm-32_bit_EABI
#[allow(non_camel_case_types)]
#[derive(Debug, Clone, Copy, PartialEq, Eq)]
pub enum ArmSyscall {
    restart,
    exit,
    fork,
    read,
    write,
    open,
    close,
}

/// The number of a syscall.
pub open spec fn syscall_number(syscall: ArmSyscall) -> u32 {
    match syscall {
        ArmSyscall::restart => 0x00,
        ArmSyscall::exit => 0x01,
        ArmSyscall::fork => 0x02,
        ArmSyscall::read => 0x03,
        ArmSyscall::write => 0x04,
        ArmSyscall::open => 0x05,
        ArmSyscall::close => 0x06,
    }
}

/// The syscall that a number stands for, if it stands for one.
pub open spec fn syscall_of(number: u32) -> Option<ArmSyscall> {
    if number == 0x00 {
        Some(ArmSyscall::restart)
    } else if number == 0x01 {
        Some(ArmSyscall::exit)
    } else if number == 0x02 {
        Some(ArmSyscall::fork)
    } else if number == 0x03 {
        Some(ArmSyscall::read)
    } else if number == 0x04 {
        Some(ArmSyscall::write)
    } else if number == 0x05 {
        Some(ArmSyscall::open)
    } else if number == 0x06 {
        Some(ArmSyscall::close)
    } else {
        None
    }
}

impl ArmSyscall {
    /// The number of the syscall.
    pub fn number(self) -> (number: u32)
        ensures
            number == syscall_number(self),
    {
        match self {
            ArmSyscall::restart => 0x00,
            ArmSyscall::exit => 0x01,
            ArmSyscall::fork => 0x02,
            ArmSyscall::read => 0x03,
            ArmSyscall::write => 0x04,
            ArmSyscall::open => 0x05,
            ArmSyscall::close => 0x06,
        }
    }

    /// The syscall that the guest asks for by `value`. A number that
    /// stands for none is an error.
    pub fn try_from(value: u32) -> (r: Result<ArmSyscall, Error>)
        ensures
            match syscall_of(value) {
                Some(syscall) => r == Ok::<ArmSyscall, Error>(syscall),
                None => r == Err::<ArmSyscall, Error>(Error::UnknownSyscall(value)),
            },
    {
        Ok(
            match value {
                0x00 => ArmSyscall::restart,
                0x01 => ArmSyscall::exit,
                0x02 => ArmSyscall::fork,
                0x03 => ArmSyscall::read,
                0x04 => ArmSyscall::write,
                0x05 => ArmSyscall::open,
                0x06 => ArmSyscall::close,
                _ => {
                    return Err(Error::UnknownSyscall(value));
                },
            },
        )
    }
}

/// What a syscall handler decides: the value for r0, or work for the
/// host, whose answer then gives that value.
#[derive(Debug, Clone, Copy, PartialEq, Eq)]
pub enum SyscallAction {
    /// the syscall is done, and this goes into r0
    Return(i32),
    /// the host is to write `len` bytes from the host address `host_ptr`
    /// to `fd`
    Write { fd: u32, host_ptr: usize, len: u32 },
    /// the policy has no implementation of the syscall
    Unimplemented(ArmSyscall),
}

/// The exit status after a syscall: `exit` sets it to r0, read as a signed
/// number, and every other syscall leaves it.
pub open spec fn status_after(r: Seq<u32>, status: Option<i32>, syscall: ArmSyscall) -> Option<
    i32,
> {
    if syscall == ArmSyscall::exit {
        Some(r[0] as i32)
    } else {
        status
    }
}

/// What forwarding decides: `exit` is caught, since the emulator has to
/// clean up after the program, `write` goes to the host, and nothing else
/// is implemented.
pub open spec fn forward_action(m: Map<u32, MappedSegment>, r: Seq<u32>, syscall: ArmSyscall)
    -> SyscallAction {
    match syscall {
        ArmSyscall::exit => SyscallAction::Return(0),
        ArmSyscall::write => write_action(m, r[0], r[1], r[2]),
        other => SyscallAction::Unimplemented(other),
    }
}

/// Forwards a syscall of the guest to the host.
pub fn syscall_forward(cpu: &mut Cpu, syscall: ArmSyscall) -> (action: SyscallAction)
    ensures
        action == forward_action(old(cpu).mem@, old(cpu).r@, syscall),
        *final(cpu) == (Cpu {
            status: status_after(old(cpu).r@, old(cpu).status, syscall),
            ..*old(cpu)
        }),
{
    match syscall {
        // exit is caught in full: the emulator cleans up after the program
        ArmSyscall::exit => {
            cpu.status = Some(cpu.r[0] as i32);
            SyscallAction::Return(0)
        },
        ArmSyscall::write => crate::sys::write::write(cpu, cpu.r[0], cpu.r[1], cpu.r[2]),
        other => SyscallAction::Unimplemented(other),
    }
}

} // verus!
