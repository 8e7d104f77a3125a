//! Syscalls of the guest that the host carries out, and the error
//! numbers of Linux.

pub mod write;

use vstd::prelude::*;

verus! {

/// The error numbers that the emulator knows. A syscall that fails hands
/// the guest the negated number in r0.
#[derive(Debug, Clone, Copy, PartialEq, Eq)]
pub enum Errno {
    /// Operation not permitted
    EPERM,
    /// No such file or directory
    ENOENT,
    /// No such process
    ESRCH,
    /// Interrupted system call
    EINTR,
    /// I/O Error
    EIO,
    /// Bad file descriptor
    EBADF,
    /// Resource temporarily unavailable
    EAGAIN,
    /// Out of memory
    ENOMEM,
    /// Permission denied
    EACCES,
    /// Bad address
    EFAULT,
    /// System call unimplemented
    ENOSYS,
}

/// The number of an error.
pub open spec fn errno_code(errno: Errno) -> i32 {
    match errno {
        Errno::EPERM => 1,
        Errno::ENOENT => 2,
        Errno::ESRCH => 3,
        Errno::EINTR => 4,
        Errno::EIO => 5,
        Errno::EBADF => 9,
        Errno::EAGAIN => 11,
        Errno::ENOMEM => 12,
        Errno::EACCES => 13,
        Errno::EFAULT => 14,
        Errno::ENOSYS => 38,
    }
}

/// The error that a number stands for, if it stands for one.
pub open spec fn errno_of(code: int) -> Option<Errno> {
    if code == 1 {
        Some(Errno::EPERM)
    } else if code == 2 {
        Some(Errno::ENOENT)
    } else if code == 3 {
        Some(Errno::ESRCH)
    } else if code == 4 {
        Some(Errno::EINTR)
    } else if code == 5 {
        Some(Errno::EIO)
    } else if code == 9 {
        Some(Errno::EBADF)
    } else if code == 11 {
        Some(Errno::EAGAIN)
    } else if code == 12 {
        Some(Errno::ENOMEM)
    } else if code == 13 {
        Some(Errno::EACCES)
    } else if code == 14 {
        Some(Errno::EFAULT)
    } else if code == 38 {
        Some(Errno::ENOSYS)
    } else {
        None
    }
}

impl Errno {
    /// The number of the error.
    pub fn code(self) -> (code: i32)
        ensures
            code == errno_code(self),
    {
        match self {
            Errno::EPERM => 1,
            Errno::ENOENT => 2,
            Errno::ESRCH => 3,
            Errno::EINTR => 4,
            Errno::EIO => 5,
            Errno::EBADF => 9,
            Errno::EAGAIN => 11,
            Errno::ENOMEM => 12,
            Errno::EACCES => 13,
            Errno::EFAULT => 14,
            Errno::ENOSYS => 38,
        }
    }

    /// What a syscall hands back for the error: its negated number.
    pub fn ret(self) -> (ret: i32)
        ensures
            ret == -errno_code(self),
    {
        -self.code()
    }

    /// The error that the return value of a failed syscall names, if it
    /// names one that is known.
    pub fn lookup(value: i32) -> (errno: Option<Errno>)
        ensures
            errno == errno_of(-value),
    {
        match value {
            -1 => Some(Errno::EPERM),
            -2 => Some(Errno::ENOENT),
            -3 => Some(Errno::ESRCH),
            -4 => Some(Errno::EINTR),
            -5 => Some(Errno::EIO),
            -9 => Some(Errno::EBADF),
            -11 => Some(Errno::EAGAIN),
            -12 => Some(Errno::ENOMEM),
            -13 => Some(Errno::EACCES),
            -14 => Some(Errno::EFAULT),
            -38 => Some(Errno::ENOSYS),
            _ => None,
        }
    }

    /// The error that the return value of a failed syscall names.
    pub fn from(value: i32) -> (errno: Errno)
        requires
            errno_of(-value) is Some,
        ensures
            errno_of(-value) == Some(errno),
    {
        match Errno::lookup(value) {
            Some(errno) => errno,
            None => {
                proof {
                    assert(false);
                }
                Errno::ENOSYS
            },
        }
    }
}

} // verus!
