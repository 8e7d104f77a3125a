//! What the command line configures.

use vstd::prelude::*;

verus! {

/// What becomes of the syscalls of the guest.
#[derive(Debug, Clone, Copy, PartialEq, Eq)]
pub enum SyscallMode {
    /// Forward syscalls to the host system (via the ARMv7->x86 translation
    /// layer)
    Forward,
    /// Deny syscalls: return -ENOSYS on all invocations
    Deny,
    /// Sandbox: only allow a safe subset: no file IO (except fd 0, 1, 2),
    /// no network, no process spawns
    Sandbox,
}

impl Default for SyscallMode {
    /// The mode of a run that asks for none.
    fn default() -> (mode: SyscallMode)
        ensures
            mode == SyscallMode::Sandbox,
    {
        SyscallMode::Sandbox
    }
}

/// A channel of the log.
#[derive(Debug, Clone, Copy, PartialEq, Eq, Structural)]
pub enum Log {
    /// no channel at all
    Nothing,
    Elf,
    Syscalls,
    Memory,
}

/// The stack size of a run that asks for none, in bytes.
pub const DEFAULT_STACK_SIZE: usize = 1024 * 1024;

#[derive(Debug)]
pub struct Config {
    /// Path to the ARM ELF binary to execute
    pub target: String,
    /// Syscall handling mode
    pub syscalls: SyscallMode,
    /// Stack size for the emulated process (in bytes)
    pub stack_size: usize,
    /// Don't pass host env to emulated process
    pub no_env: bool,
    /// Configure what data to log
    pub log: Vec<Log>,
    /// Log everything and anything
    pub verbose: bool,
}

impl Config {
    /// Whether the run logs on `channel`: it does where the channel was
    /// asked for, and a verbose run logs on every channel there is.
    pub open spec fn spec_logs(&self, channel: Log) -> bool {
        self.log@.contains(channel) || (self.verbose && channel != Log::Nothing)
    }

    /// Whether the run logs on `channel`.
    #[verifier::when_used_as_spec(spec_logs)]
    pub fn logs(&self, channel: Log) -> (logs: bool)
        ensures
            logs == self.spec_logs(channel),
    {
        if self.verbose && channel != Log::Nothing {
            return true;
        }
        let mut i: usize = 0;
        while i < self.log.len()
            invariant
                i <= self.log@.len(),
                forall|j: int| 0 <= j < i ==> self.log@[j] != channel,
            decreases self.log@.len() - i,
        {
            if self.log[i] == channel {
                return true;
            }
            i = i + 1;
        }
        false
    }
}

} // verus!
