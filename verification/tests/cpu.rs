use stinkarm::config::{Config, SyscallMode};
use stinkarm::cpu::sandbox::{syscall_sandbox, syscall_stub};
use stinkarm::cpu::translation::{syscall_forward, ArmSyscall, SyscallAction};
use stinkarm::cpu::{Cpu, Step};
use stinkarm::err::Error;
use stinkarm::mem::Mem;

const GUEST: u32 = 0x8000;
const HOST: usize = 0x10_0000;

const MOV_R7_4: u32 = 0xe3a0_7004;
const MOV_R7_1: u32 = 0xe3a0_7001;
const MOV_R0_0: u32 = 0xe3a0_0000;
const MOV_R0_1: u32 = 0xe3a0_0001;
const MOV_R0_7: u32 = 0xe3a0_0007;
const MOV_R0_161: u32 = 0xe3a0_00a1;
const MOV_R2_6: u32 = 0xe3a0_2006;
const LDR_R1_PC_16: u32 = 0xe59f_1010;
const SVC: u32 = 0xef00_0000;

/// Host memory for one region of the guest, and what the guest wrote.
struct Host {
    bytes: Vec<u8>,
    stdout: Vec<u8>,
    r0_after_svc: Vec<u32>,
}

impl Host {
    fn with_words(words: &[u32]) -> Host {
        let mut bytes = Vec::new();
        for word in words {
            bytes.extend_from_slice(&word.to_le_bytes());
        }
        bytes.resize(0x1000, 0);
        Host { bytes, stdout: Vec::new(), r0_after_svc: Vec::new() }
    }

    fn read_u32(&self, host_ptr: usize) -> u32 {
        let at = host_ptr - HOST;
        u32::from_le_bytes([
            self.bytes[at],
            self.bytes[at + 1],
            self.bytes[at + 2],
            self.bytes[at + 3],
        ])
    }

    fn mem(&self) -> Mem {
        let mut mem = Mem::new();
        mem.map_region(GUEST, self.bytes.len() as u32, HOST);
        mem
    }

    /// Runs the guest from the start of the region, as the program does,
    /// and gives the exit code or the error.
    fn run(&mut self, mode: SyscallMode) -> Result<i32, Error> {
        let mem = self.mem();
        let conf = conf(mode);
        let mut cpu = Cpu::new(&conf, &mem, GUEST);
        loop {
            let fetched = cpu.fetch().map(|p| self.read_u32(p));
            let was_svc = fetched.map_or(false, |w| w & 0x0f00_0000 == 0x0f00_0000);
            match cpu.step(fetched)? {
                Step::Halt => break,
                Step::Continue => {}
                Step::Load { rd, host_ptr, .. } => {
                    assert!(rd < 16);
                    cpu.complete_load(rd, self.read_u32(host_ptr));
                }
                Step::Segfault { addr } => panic!("Segfault at {:#x}", addr),
                Step::Write { fd, host_ptr, len } => {
                    let at = host_ptr - HOST;
                    let ret = if fd == 1 {
                        self.stdout.extend_from_slice(&self.bytes[at..at + len as usize]);
                        i64::from(len)
                    } else {
                        -9
                    };
                    cpu.complete_write(ret);
                }
                Step::Unimplemented(syscall) => panic!("not implemented: {:?}", syscall),
            }
            if was_svc {
                self.r0_after_svc.push(cpu.r[0]);
            }
            if cpu.status.is_some() {
                break;
            }
        }
        Ok(cpu.exit_code())
    }
}

fn conf(mode: SyscallMode) -> Config {
    Config {
        target: String::new(),
        syscalls: mode,
        stack_size: 1024 * 1024,
        no_env: false,
        log: Vec::new(),
        verbose: false,
    }
}

fn hello(fd_mov: u32) -> Host {
    let mut host = Host::with_words(&[
        MOV_R7_4,
        fd_mov,
        LDR_R1_PC_16,
        MOV_R2_6,
        SVC,
        MOV_R7_1,
        MOV_R0_0,
        SVC,
        GUEST + 0x24,
    ]);
    host.bytes[0x24..0x2b].copy_from_slice(b"hello\n\0");
    host
}

const MODES: [SyscallMode; 3] = [SyscallMode::Forward, SyscallMode::Deny, SyscallMode::Sandbox];

#[test]
fn exit_with_zero() {
    for mode in MODES {
        let mut host = Host::with_words(&[MOV_R7_1, MOV_R0_0, SVC]);
        assert_eq!(host.run(mode), Ok(0));
    }
}

#[test]
fn exit_with_161() {
    for mode in MODES {
        let mut host = Host::with_words(&[MOV_R7_1, MOV_R0_161, SVC]);
        assert_eq!(host.run(mode), Ok(161));
    }
}

#[test]
fn hello_is_forwarded() {
    let mut host = hello(MOV_R0_1);
    assert_eq!(host.run(SyscallMode::Forward), Ok(0));
    assert_eq!(host.stdout, b"hello\n");
    assert_eq!(host.r0_after_svc, vec![6, 0]);
}

#[test]
fn hello_leaves_the_sandbox_through_stdout() {
    let mut host = hello(MOV_R0_1);
    assert_eq!(host.run(SyscallMode::Sandbox), Ok(0));
    assert_eq!(host.stdout, b"hello\n");
}

#[test]
fn sandbox_refuses_other_descriptors() {
    let mut host = hello(MOV_R0_7);
    assert_eq!(host.run(SyscallMode::Sandbox), Ok(0));
    assert!(host.stdout.is_empty());
    // -ENOSYS after the write, 0 after the exit
    assert_eq!(host.r0_after_svc, vec![-38i32 as u32, 0]);
}

#[test]
fn forward_hands_the_answer_of_the_host_to_the_guest() {
    // descriptor 7: the host of this test answers -EBADF
    let mut host = hello(MOV_R0_7);
    assert_eq!(host.run(SyscallMode::Forward), Ok(0));
    assert!(host.stdout.is_empty());
    assert_eq!(host.r0_after_svc, vec![-9i32 as u32, 0]);
}

#[test]
fn deny_answers_enosys_and_still_exits() {
    let mut host = hello(MOV_R0_1);
    assert_eq!(host.run(SyscallMode::Deny), Ok(0));
    assert!(host.stdout.is_empty());
    assert_eq!(host.r0_after_svc, vec![-38i32 as u32, -38i32 as u32]);
    let mut host = Host::with_words(&[MOV_R7_1, MOV_R0_161, SVC]);
    assert_eq!(host.run(SyscallMode::Deny), Ok(161));
    assert_eq!(host.r0_after_svc, vec![-38i32 as u32]);
}

#[test]
fn unknown_word_ends_the_run_with_an_error() {
    for mode in MODES {
        let mut host = Host::with_words(&[0xec00_0000]);
        assert_eq!(host.run(mode), Err(Error::UnknownOrUnsupportedInstruction(0xec00_0000)));
        let mut host = Host::with_words(&[MOV_R0_1, 0xe1a0_0001, SVC]);
        assert_eq!(host.run(mode), Err(Error::UnknownOrUnsupportedInstruction(0xe1a0_0001)));
    }
}

#[test]
fn all_ones_is_a_supervisor_call_that_never_executes() {
    for mode in MODES {
        // the condition NV does not hold: the word is passed over, and the
        // zeros behind it end the run
        let mut host = Host::with_words(&[0xffff_ffff]);
        assert_eq!(host.run(mode), Ok(0));
        assert!(host.r0_after_svc.iter().all(|r0| *r0 == 0));
    }
}

#[test]
fn zeros_and_the_end_of_the_image_end_the_run() {
    let mut host = Host::with_words(&[MOV_R0_161, 0, MOV_R7_1, SVC]);
    assert_eq!(host.run(SyscallMode::Forward), Ok(0));
    // the whole region full of instructions: the run leaves the image
    let mut host = Host::with_words(&[MOV_R0_161; 0x400]);
    assert_eq!(host.run(SyscallMode::Forward), Ok(0));
}

#[test]
fn unknown_syscall_number_is_an_error() {
    for mode in MODES {
        // mov r7, #99
        let mut host = Host::with_words(&[0xe3a0_7063, SVC]);
        assert_eq!(host.run(mode), Err(Error::UnknownSyscall(99)));
        // mov r7, #7
        let mut host = Host::with_words(&[0xe3a0_7007, SVC]);
        assert_eq!(host.run(mode), Err(Error::UnknownSyscall(7)));
    }
}

#[test]
fn branch_ends_the_run_with_status_one() {
    for mode in MODES {
        let mut host = Host::with_words(&[0xea00_0002, MOV_R7_1, MOV_R0_0, SVC]);
        assert_eq!(host.run(mode), Ok(1));
    }
}

#[test]
fn new_processor() {
    let mem = Mem::new();
    let conf = conf(SyscallMode::Deny);
    let cpu = Cpu::new(&conf, &mem, 0x8000);
    let mut r = [0u32; 16];
    r[15] = 0x8000;
    assert_eq!(cpu.r, r);
    assert_eq!(cpu.cpsr, 0x6000_0010);
    assert_eq!(cpu.status, None);
    assert_eq!(cpu.syscalls, SyscallMode::Deny);
    assert_eq!(cpu.pc(), 0x8000);
}

#[test]
fn reset_clears_registers_and_flags() {
    let mem = Mem::new();
    let conf = conf(SyscallMode::Forward);
    let mut cpu = Cpu::new(&conf, &mem, 0x8000);
    cpu.r[3] = 7;
    cpu.cpsr = 0;
    cpu.status = Some(4);
    cpu.reset();
    assert_eq!(cpu.r, [0u32; 16]);
    assert_eq!(cpu.cpsr, 0x6000_0010);
    assert_eq!(cpu.status, Some(4));
    assert_eq!(cpu.syscalls, SyscallMode::Forward);
}

#[test]
fn program_counter_is_word_aligned_and_wraps() {
    let mem = Mem::new();
    let conf = conf(SyscallMode::Forward);
    let mut cpu = Cpu::new(&conf, &mem, 0x8003);
    assert_eq!(cpu.pc(), 0x8000);
    cpu.advance();
    assert_eq!(cpu.r[15], 0x8007);
    assert_eq!(cpu.pc(), 0x8004);
    cpu.r[15] = 0xffff_fffe;
    cpu.advance();
    assert_eq!(cpu.r[15], 2);
    assert_eq!(cpu.pc(), 0);
}

#[test]
fn conditions() {
    let mem = Mem::new();
    let conf = conf(SyscallMode::Forward);
    let mut cpu = Cpu::new(&conf, &mem, 0);
    // Z is set at the start
    assert!(cpu.cond_passes(0x0));
    assert!(!cpu.cond_passes(0x1));
    assert!(cpu.cond_passes(0xe));
    assert!(!cpu.cond_passes(0xf));
    cpu.cpsr = 0x2000_0010;
    assert!(!cpu.cond_passes(0x0));
    assert!(cpu.cond_passes(0x1));
    assert!(cpu.cond_passes(0xe));
    for cpsr in [0u32, 0x6000_0010, 0xf000_0000, 0x4000_0000] {
        cpu.cpsr = cpsr;
        for cond in (2u8..=0xd).chain(0xf..=0xff) {
            assert!(!cpu.cond_passes(cond));
        }
    }
}

#[test]
fn step_passes_over_what_its_condition_refuses() {
    let mem = Mem::new();
    let conf = conf(SyscallMode::Forward);
    let mut cpu = Cpu::new(&conf, &mem, 0x8000);
    // movne r0, #1 with Z set
    assert_eq!(cpu.step(Some(0x13a0_0001)), Ok(Step::Continue));
    assert_eq!(cpu.r[0], 0);
    assert_eq!(cpu.r[15], 0x8004);
    // moveq r0, #1
    assert_eq!(cpu.step(Some(0x03a0_0001)), Ok(Step::Continue));
    assert_eq!(cpu.r[0], 1);
    assert_eq!(cpu.r[15], 0x8008);
    // movge r0, #7: the condition is not implemented and does not hold
    assert_eq!(cpu.step(Some(0xa3a0_0007)), Ok(Step::Continue));
    assert_eq!(cpu.r[0], 1);
    assert_eq!(cpu.r[15], 0x800c);
    // an unknown word under a condition that does not hold is passed over
    assert_eq!(cpu.step(Some(0x1c00_0000)), Ok(Step::Continue));
    assert_eq!(cpu.r[15], 0x8010);
    // a branch under a condition that does not hold sets no status
    assert_eq!(cpu.step(Some(0x1a00_0002)), Ok(Step::Continue));
    assert_eq!(cpu.status, None);
    assert_eq!(cpu.r[15], 0x8014);
}

#[test]
fn step_halts_without_a_change() {
    let mem = Mem::new();
    let conf = conf(SyscallMode::Forward);
    let mut cpu = Cpu::new(&conf, &mem, 0x8000);
    cpu.r[7] = 1;
    let before = cpu.r;
    assert_eq!(cpu.fetch(), None);
    assert_eq!(cpu.step(None), Ok(Step::Halt));
    assert_eq!(cpu.step(Some(0)), Ok(Step::Halt));
    assert_eq!(cpu.r, before);
    assert_eq!(cpu.status, None);
}

#[test]
fn mov_into_the_program_counter_moves_on_from_there() {
    let mem = Mem::new();
    let conf = conf(SyscallMode::Forward);
    let mut cpu = Cpu::new(&conf, &mem, 0x8000);
    // mov pc, #0x100
    assert_eq!(cpu.step(Some(0xe3a0_fc01)), Ok(Step::Continue));
    assert_eq!(cpu.r[15], 0x104);
}

#[test]
fn load_is_completed_by_the_host() {
    let host = Host::with_words(&[LDR_R1_PC_16]);
    let mem = host.mem();
    let conf = conf(SyscallMode::Forward);
    let mut cpu = Cpu::new(&conf, &mem, GUEST);
    assert_eq!(cpu.fetch(), Some(HOST));
    assert_eq!(
        cpu.step(Some(LDR_R1_PC_16)),
        Ok(Step::Load { rd: 1, addr: GUEST + 0x18, host_ptr: HOST + 0x18 })
    );
    // nothing has happened yet
    assert_eq!(cpu.r[1], 0);
    assert_eq!(cpu.r[15], GUEST);
    cpu.complete_load(1, 0xdead_beef);
    assert_eq!(cpu.r[1], 0xdead_beef);
    assert_eq!(cpu.r[15], GUEST + 4);
    // a load into the program counter
    cpu.complete_load(15, 0x9000);
    assert_eq!(cpu.r[15], 0x9004);
}

#[test]
fn load_from_nowhere_is_a_segfault() {
    let host = Host::with_words(&[]);
    let mem = host.mem();
    let conf = conf(SyscallMode::Forward);
    let mut cpu = Cpu::new(&conf, &mem, GUEST + 0xffc);
    // ldr r1, [pc, #16] at the end of the region
    assert_eq!(cpu.step(Some(LDR_R1_PC_16)), Ok(Step::Segfault { addr: GUEST + 0x1014 }));
    assert_eq!(cpu.r[15], GUEST + 0xffc);
}

#[test]
fn write_is_completed_by_the_host() {
    let host = Host::with_words(&[]);
    let mem = host.mem();
    let conf = conf(SyscallMode::Forward);
    let mut cpu = Cpu::new(&conf, &mem, GUEST);
    cpu.r[7] = 4;
    cpu.r[0] = 2;
    cpu.r[1] = GUEST + 0x30;
    cpu.r[2] = 5;
    assert_eq!(cpu.step(Some(SVC)), Ok(Step::Write { fd: 2, host_ptr: HOST + 0x30, len: 5 }));
    assert_eq!(cpu.r[0], 2);
    assert_eq!(cpu.r[15], GUEST);
    cpu.complete_write(5);
    assert_eq!(cpu.r[0], 5);
    assert_eq!(cpu.r[15], GUEST + 4);
    cpu.complete_write(-4);
    assert_eq!(cpu.r[0], -4i32 as u32);
    cpu.complete_write(0x1_0000_0000);
    assert_eq!(cpu.r[0], i32::MAX as u32);
    assert_eq!(cpu.r[15], GUEST + 12);
}

#[test]
fn write_of_nothing_and_from_nowhere() {
    let host = Host::with_words(&[]);
    let mem = host.mem();
    for mode in [SyscallMode::Forward, SyscallMode::Sandbox] {
        let conf = conf(mode);
        let mut cpu = Cpu::new(&conf, &mem, GUEST);
        cpu.r[7] = 4;
        cpu.r[0] = 1;
        // no bytes: done at once, wherever they would come from
        cpu.r[1] = 0x10;
        cpu.r[2] = 0;
        assert_eq!(cpu.step(Some(SVC)), Ok(Step::Continue));
        assert_eq!(cpu.r[0], 0);
        assert_eq!(cpu.r[15], GUEST + 4);
        // bytes from an address that is not mapped: -EFAULT
        cpu.r[0] = 1;
        cpu.r[2] = 4;
        assert_eq!(cpu.step(Some(SVC)), Ok(Step::Continue));
        assert_eq!(cpu.r[0], -14i32 as u32);
        assert_eq!(cpu.r[15], GUEST + 8);
        assert_eq!(cpu.status, None);
    }
}

#[test]
fn forward_implements_exit_and_write_only() {
    let host = Host::with_words(&[]);
    let mem = host.mem();
    let conf = conf(SyscallMode::Forward);
    let others = [
        (0u32, ArmSyscall::restart),
        (2, ArmSyscall::fork),
        (3, ArmSyscall::read),
        (5, ArmSyscall::open),
        (6, ArmSyscall::close),
    ];
    for (number, syscall) in others {
        let mut cpu = Cpu::new(&conf, &mem, GUEST);
        cpu.r[7] = number;
        assert_eq!(cpu.step(Some(SVC)), Ok(Step::Unimplemented(syscall)));
        assert_eq!(cpu.r[15], GUEST);
        assert_eq!(cpu.status, None);
        assert_eq!(syscall_forward(&mut cpu, syscall), SyscallAction::Unimplemented(syscall));
    }
}

#[test]
fn sandbox_and_deny_answer_enosys_for_the_rest() {
    let host = Host::with_words(&[]);
    let mem = host.mem();
    for mode in [SyscallMode::Sandbox, SyscallMode::Deny] {
        let conf = conf(mode);
        for number in [0u32, 2, 3, 5, 6] {
            let mut cpu = Cpu::new(&conf, &mem, GUEST);
            cpu.r[7] = number;
            assert_eq!(cpu.step(Some(SVC)), Ok(Step::Continue));
            assert_eq!(cpu.r[0], -38i32 as u32);
            assert_eq!(cpu.r[15], GUEST + 4);
            assert_eq!(cpu.status, None);
        }
    }
}

#[test]
fn handlers_on_their_own() {
    let host = Host::with_words(&[]);
    let mem = host.mem();
    let conf = conf(SyscallMode::Sandbox);
    let mut cpu = Cpu::new(&conf, &mem, GUEST);
    cpu.r[0] = 0xffff_ffff;
    assert_eq!(syscall_forward(&mut cpu, ArmSyscall::exit), SyscallAction::Return(0));
    assert_eq!(cpu.status, Some(-1));
    cpu.r[0] = 3;
    assert_eq!(syscall_sandbox(&mut cpu, ArmSyscall::exit), SyscallAction::Return(0));
    assert_eq!(cpu.status, Some(3));
    cpu.r[0] = 4;
    assert_eq!(syscall_stub(&mut cpu, ArmSyscall::exit), -38);
    assert_eq!(cpu.status, Some(4));
    assert_eq!(syscall_stub(&mut cpu, ArmSyscall::write), -38);
    assert_eq!(cpu.status, Some(4));
    // the sandbox lets the three standard streams through
    cpu.r[1] = GUEST;
    cpu.r[2] = 1;
    for fd in 0..3u32 {
        cpu.r[0] = fd;
        assert_eq!(
            syscall_sandbox(&mut cpu, ArmSyscall::write),
            SyscallAction::Write { fd, host_ptr: HOST, len: 1 }
        );
    }
    for fd in [3u32, 7, u32::MAX] {
        cpu.r[0] = fd;
        assert_eq!(syscall_sandbox(&mut cpu, ArmSyscall::write), SyscallAction::Return(-38));
        assert_eq!(
            syscall_forward(&mut cpu, ArmSyscall::write),
            SyscallAction::Write { fd, host_ptr: HOST, len: 1 }
        );
    }
    assert_eq!(
        stinkarm::sys::write::write(&cpu, 1, GUEST + 0xfff, 9),
        SyscallAction::Write { fd: 1, host_ptr: HOST + 0xfff, len: 9 }
    );
    assert_eq!(stinkarm::sys::write::write(&cpu, 1, GUEST + 0x1000, 9), SyscallAction::Return(-14));
    assert_eq!(stinkarm::sys::write::write(&cpu, 1, GUEST + 0x1000, 0), SyscallAction::Return(0));
}
