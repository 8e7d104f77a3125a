//! The policies that keep the syscalls of the guest from the host.

use crate::cpu::translation::{status_after, ArmSyscall, SyscallAction};
use crate::cpu::Cpu;
use crate::mem::MappedSegment;
use crate::sys::write::write_action;
use crate::sys::{errno_code, Errno};
use vstd::prelude::*;

verus! {

/// What the sandbox decides: `exit` is caught, `write` goes to the host
/// for the three standard streams only, and everything else is answered
/// as not implemented.
pub open spec fn sandbox_action(m: Map<u32, MappedSegment>, r: Seq<u32>, syscall: ArmSyscall)
    -> SyscallAction {
    match syscall {
        ArmSyscall::exit => SyscallAction::Return(0),
        ArmSyscall::write => if r[0] > 2 {
            SyscallAction::Return((-errno_code(Errno::ENOSYS)) as i32)
        } else {
            write_action(m, r[0], r[1], r[2])
        },
        _ => SyscallAction::Return((-errno_code(Errno::ENOSYS)) as i32),
    }
}

/// Handles a syscall of the guest in the sandbox.
pub fn syscall_sandbox(cpu: &mut Cpu, syscall: ArmSyscall) -> (action: SyscallAction)
    ensures
        action == sandbox_action(old(cpu).mem@, old(cpu).r@, syscall),
        *final(cpu) == (Cpu {
            status: status_after(old(cpu).r@, old(cpu).status, syscall),
            ..*old(cpu)
        }),
{
    match syscall {
        // exit is caught in full: the emulator cleans up after the program
        ArmSyscall::exit => {
            cpu.status = Some(cpu.r[0] as i32);
            SyscallAction::Return(0)
        },
        ArmSyscall::write => {
            let (r0, r1, r2) = (cpu.r[0], cpu.r[1], cpu.r[2]);
            // only stdin, stdout and stderr may be written to
            if r0 > 2 {
                return SyscallAction::Return(Errno::ENOSYS.ret());
            }
            crate::sys::write::write(cpu, r0, r1, r2)
        },
        _ => SyscallAction::Return(Errno::ENOSYS.ret()),
    }
}

/// Denies a syscall of the guest: the answer is always that it is not
/// implemented, but `exit` still ends the run.
pub fn syscall_stub(cpu: &mut Cpu, syscall: ArmSyscall) -> (ret: i32)
    ensures
        ret == -errno_code(Errno::ENOSYS),
        *final(cpu) == (Cpu {
            status: status_after(old(cpu).r@, old(cpu).status, syscall),
            ..*old(cpu)
        }),
{
    match syscall {
        // exit is caught in full: the emulator cleans up after the program
        ArmSyscall::exit => {
            cpu.status = Some(cpu.r[0] as i32);
        },
        _ => (),
    }
    Errno::ENOSYS.ret()
}

} // verus!
