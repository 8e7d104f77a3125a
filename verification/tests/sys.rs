use stinkarm::config::{Config, Log, SyscallMode, DEFAULT_STACK_SIZE};
use stinkarm::cpu::translation::ArmSyscall;
use stinkarm::err::Error;
use stinkarm::sys::write::write_return;
use stinkarm::sys::Errno;

#[test]
fn errno_numbers() {
    let all = [
        (Errno::EPERM, 1),
        (Errno::ENOENT, 2),
        (Errno::ESRCH, 3),
        (Errno::EINTR, 4),
        (Errno::EIO, 5),
        (Errno::EBADF, 9),
        (Errno::EAGAIN, 11),
        (Errno::ENOMEM, 12),
        (Errno::EACCES, 13),
        (Errno::EFAULT, 14),
        (Errno::ENOSYS, 38),
    ];
    for (errno, code) in all {
        assert_eq!(errno.code(), code);
        assert_eq!(errno.ret(), -code);
        assert_eq!(Errno::from(-code), errno);
        assert_eq!(Errno::lookup(-code), Some(errno));
        assert_eq!(Errno::lookup(code), None);
    }
    for value in [0, -6, -7, -8, -10, -15, -37, -39, i32::MIN, i32::MAX] {
        assert_eq!(Errno::lookup(value), None);
    }
}

#[test]
fn syscall_numbers() {
    let all = [
        (ArmSyscall::restart, 0u32),
        (ArmSyscall::exit, 1),
        (ArmSyscall::fork, 2),
        (ArmSyscall::read, 3),
        (ArmSyscall::write, 4),
        (ArmSyscall::open, 5),
        (ArmSyscall::close, 6),
    ];
    for (syscall, number) in all {
        assert_eq!(syscall.number(), number);
        assert_eq!(ArmSyscall::try_from(number), Ok(syscall));
    }
    assert_eq!(ArmSyscall::try_from(7), Err(Error::UnknownSyscall(7)));
    assert_eq!(ArmSyscall::try_from(0xf0002), Err(Error::UnknownSyscall(0xf0002)));
    assert_eq!(ArmSyscall::try_from(u32::MAX), Err(Error::UnknownSyscall(u32::MAX)));
}

#[test]
fn answer_of_the_host_to_a_write() {
    assert_eq!(write_return(0), 0);
    assert_eq!(write_return(6), 6);
    assert_eq!(write_return(-9), -9);
    assert_eq!(write_return(i64::from(i32::MAX)), i32::MAX);
    assert_eq!(write_return(i64::from(i32::MIN)), i32::MIN);
    assert_eq!(write_return(i64::from(i32::MAX) + 1), i32::MAX);
    assert_eq!(write_return(i64::from(i32::MIN) - 1), i32::MAX);
    assert_eq!(write_return(i64::MAX), i32::MAX);
    assert_eq!(write_return(i64::MIN), i32::MAX);
}

#[test]
fn log_channels_of_a_run() {
    let mut conf = Config {
        target: "a.elf".to_string(),
        syscalls: SyscallMode::default(),
        stack_size: DEFAULT_STACK_SIZE,
        no_env: false,
        log: vec![Log::Syscalls],
        verbose: false,
    };
    assert_eq!(conf.syscalls, SyscallMode::Sandbox);
    assert_eq!(conf.stack_size, 1024 * 1024);
    assert!(conf.logs(Log::Syscalls));
    assert!(!conf.logs(Log::Elf));
    assert!(!conf.logs(Log::Memory));
    assert!(!conf.logs(Log::Nothing));
    conf.verbose = true;
    assert!(conf.logs(Log::Syscalls));
    assert!(conf.logs(Log::Elf));
    assert!(conf.logs(Log::Memory));
    assert!(!conf.logs(Log::Nothing));
    conf.log = vec![Log::Nothing, Log::Memory];
    conf.verbose = false;
    assert!(conf.logs(Log::Nothing));
    assert!(conf.logs(Log::Memory));
    assert!(!conf.logs(Log::Elf));
}
