use seccompiler::{SeccompAction, SeccompFilter, TargetArch};
use std::collections::BTreeMap;
use worker_lib::linux::{
    add_deny, deny_rules, denied_syscalls, landlock_plan, seccomp_plan, seccomp_program,
    syscall_numbers, Arch, FilterAction, SandboxError, Syscall, LANDLOCK_ABI,
};

fn full_deny_list() -> Vec<Syscall> {
    vec![
        Syscall::Ptrace,
        Syscall::Mount,
        Syscall::Umount2,
        Syscall::Reboot,
        Syscall::Socket,
        Syscall::Connect,
        Syscall::Bind,
        Syscall::Listen,
        Syscall::Execve,
        Syscall::Execveat,
    ]
}

#[test]
fn denied_syscalls_on_x86_64() {
    assert_eq!(denied_syscalls(Arch::X86_64), full_deny_list());
}

#[test]
fn denied_syscalls_elsewhere_leave_out_execveat() {
    for arch in [Arch::Aarch64, Arch::Riscv64] {
        let mut expected = full_deny_list();
        expected.pop();
        assert_eq!(denied_syscalls(arch), expected);
    }
}

#[test]
fn seccomp_plan_refuses_with_errno_and_allows_the_rest() {
    for arch in [Arch::X86_64, Arch::Aarch64, Arch::Riscv64] {
        let plan = seccomp_plan(arch, 1);
        assert_eq!(plan.denied, denied_syscalls(arch));
        assert_eq!(plan.mismatch, FilterAction::Allow);
        assert_eq!(plan.on_match, FilterAction::Errno(1));
        assert_eq!(plan.arch, arch);
    }
}

#[test]
fn landlock_plan_uses_the_first_abi() {
    let plan = landlock_plan();
    assert_eq!(plan.abi_version, LANDLOCK_ABI);
    assert_eq!(LANDLOCK_ABI, 1);
    assert_eq!(plan.handled_access, 0x1fff);
}

#[test]
fn seccomp_program_refuses_equal_actions() {
    let mut plan = seccomp_plan(Arch::X86_64, 1);
    plan.mismatch = FilterAction::Errno(1);
    assert!(matches!(
        seccomp_program(&vec![1, 2], &plan),
        Err(SandboxError::SeccompBackend(_))
    ));
}

#[test]
fn seccomp_program_compiles_the_deny_list() {
    // x86_64 audit check, syscall number load, then one five-instruction
    // block per refused number, then the final allow.
    let plan = seccomp_plan(Arch::X86_64, 1);
    let numbers = vec![101i64, 165];
    let program = match seccomp_program(&numbers, &plan) {
        Ok(program) => program,
        Err(_) => panic!("program refused"),
    };
    assert_eq!(program.len(), 5 * 2 + 5);
    assert_eq!(program[1], (0x15, 1, 0, 0xC000_003E));
    assert_eq!(program[4], (0x15, 0, 1, 101));
    assert_eq!(program[7], (0x06, 0, 0, 0x0005_0001));
    assert_eq!(program[14], (0x06, 0, 0, 0x7fff_0000));
    let empty = seccomp_program(&vec![], &plan);
    assert!(matches!(empty, Ok(ref p) if p.len() == 4));
}

#[test]
fn seccomp_program_matches_seccompiler() {
    let plan = seccomp_plan(Arch::Aarch64, 1);
    let numbers = syscall_numbers(&plan.denied);
    let program = match seccomp_program(&numbers, &plan) {
        Ok(program) => program,
        Err(_) => panic!("program refused"),
    };
    let rules = numbers.iter().map(|&n| (n, vec![])).collect();
    let filter = SeccompFilter::new(
        rules,
        SeccompAction::Allow,
        SeccompAction::Errno(1),
        TargetArch::aarch64,
    )
    .unwrap();
    let expected: seccompiler::BpfProgram = filter.try_into().unwrap();
    let expected: Vec<(u16, u8, u8, u32)> =
        expected.iter().map(|f| (f.code, f.jt, f.jf, f.k)).collect();
    assert_eq!(program, expected);
}

#[test]
fn add_deny_inserts_an_empty_chain() {
    let mut map = BTreeMap::new();
    assert!(add_deny(&mut map, 42).is_ok());
    assert!(add_deny(&mut map, 7).is_ok());
    assert!(add_deny(&mut map, 42).is_ok());
    assert_eq!(map.keys().copied().collect::<Vec<i64>>(), vec![7, 42]);
    assert!(map.values().all(|chain| chain.is_empty()));
}

#[test]
fn deny_rules_has_one_key_per_number() {
    let rules = deny_rules(&vec![3, 1, 3, 2]);
    assert_eq!(rules.keys().copied().collect::<Vec<i64>>(), vec![1, 2, 3]);
    assert!(rules.values().all(|chain| chain.is_empty()));
}

#[test]
fn syscall_numbers_are_libc_numbers() {
    let numbers = syscall_numbers(&denied_syscalls(Arch::X86_64));
    assert_eq!(numbers.len(), 10);
    assert_eq!(numbers[0], libc::SYS_ptrace);
    assert_eq!(numbers[4], libc::SYS_socket);
    assert_eq!(numbers[8], libc::SYS_execve);
    assert_eq!(numbers[9], libc::SYS_execveat);
    assert!(numbers.iter().all(|&n| 0 <= n && n <= u32::MAX as i64));
}
