//! The write syscall.

use crate::cpu::translation::SyscallAction;
use crate::cpu::Cpu;
use crate::mem::{translation, MappedSegment};
use crate::sys::{errno_code, Errno};
use vstd::prelude::*;

verus! {

/// What `write(fd, buf, len)` comes to in a guest whose memory map is `m`:
/// nothing to do for no bytes, a bad address where `buf` is not mapped,
/// and else a write by the host from where `buf` lies in host memory.
pub open spec fn write_action(m: Map<u32, MappedSegment>, fd: u32, buf: u32, len: u32)
    -> SyscallAction {
    if len == 0 {
        SyscallAction::Return(0)
    } else {
        match translation(m, buf) {
            None => SyscallAction::Return((-errno_code(Errno::EFAULT)) as i32),
            Some(host_ptr) => SyscallAction::Write { fd, host_ptr, len },
        }
    }
}

/// Prepares the write of `len` bytes at guest address `buf` to `fd`.
pub fn write(cpu: &Cpu, fd: u32, buf: u32, len: u32) -> (action: SyscallAction)
    ensures
        action == write_action(cpu.mem@, fd, buf, len),
{
    if len == 0 {
        return SyscallAction::Return(0);
    }
    match cpu.mem.translate(buf) {
        Some(host_ptr) => SyscallAction::Write { fd, host_ptr, len },
        // a bad address
        None => SyscallAction::Return(Errno::EFAULT.ret()),
    }
}

/// What the guest gets for the answer of the host to a write: the answer
/// itself where 32 bits hold it, and the greatest 32-bit number where
/// they do not.
pub open spec fn write_returned(ret: i64) -> i32 {
    if i32::MIN <= ret <= i32::MAX {
        ret as i32
    } else {
        i32::MAX
    }
}

/// Turns the answer of the host to a write into the value for r0.
pub fn write_return(ret: i64) -> (r: i32)
    ensures
        r == write_returned(ret),
{
    if ret < i32::MIN as i64 || ret > i32::MAX as i64 {
        i32::MAX
    } else {
        ret as i32
    }
}

} // verus!
