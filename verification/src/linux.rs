//! Confinement of the worker process: a Landlock ruleset that handles every
//! file-system access right of the first Landlock ABI, then a seccomp filter
//! that refuses, with `EPERM`, the system calls that a plugin never needs.
//!
//! Both steps act on the calling process through the kernel, so whether they
//! succeed depends on the running system.  The values handed to the kernel
//! are library values with exact contracts: the handled access rights of
//! `landlock_plan`, and the BPF program of `seccomp_program`, built from
//! `seccomp_plan`.  How each outside result becomes the library's result is
//! stated by `landlock_result`, `seccomp_result` and `sandbox_outcome`.  No
//! contract can say what a kernel call was given, only what was built for it.
use landlock::AccessFs;
use landlock::Access;
use crate::kernel::{apply_filter, handle_fs_access, FilterInstalled, HandledAccess};
use landlock::{RestrictionStatus, Ruleset, RulesetCreated, RulesetError, ABI};
use seccompiler::{BackendError, BpfProgram, SeccompAction, SeccompFilter, SeccompRule, TargetArch};
use std::collections::BTreeMap;
use vstd::prelude::*;

verus! {

#[verifier::external_type_specification]
#[verifier::external_body]
pub struct ExRuleset(Ruleset);

#[verifier::external_type_specification]
#[verifier::external_body]
pub struct ExRulesetCreated(RulesetCreated);

#[verifier::external_type_specification]
#[verifier::external_body]
pub struct ExRestrictionStatus(RestrictionStatus);

#[verifier::external_type_specification]
#[verifier::external_body]
pub struct ExRulesetError(RulesetError);

#[verifier::external_type_specification]
#[verifier::external_body]
pub struct ExSeccompRule(SeccompRule);

#[verifier::external_type_specification]
#[verifier::external_body]
pub struct ExBackendError(BackendError);

#[verifier::external_type_specification]
#[verifier::external_body]
pub struct ExSeccompError(seccompiler::Error);

/// Why confining the process failed.
pub enum SandboxError {
    /// A step of the Landlock ruleset failed.
    Landlock(RulesetError),
    /// The seccomp filter could not be built or compiled.
    SeccompBackend(BackendError),
    /// The kernel refused the seccomp filter.
    Seccomp(seccompiler::Error),
}

/// The architectures for which a seccomp filter can be built.
#[derive(Clone, Copy, PartialEq, Eq, Structural, Debug)]
pub enum Arch {
    X86_64,
    Aarch64,
    Riscv64,
}

/// The system calls that the filter refuses.
#[derive(Clone, Copy, PartialEq, Eq, Structural, Debug)]
pub enum Syscall {
    Ptrace,
    Mount,
    Umount2,
    Reboot,
    Socket,
    Connect,
    Bind,
    Listen,
    Execve,
    Execveat,
}

/// The Landlock ABI whose access rights the ruleset handles.
pub const LANDLOCK_ABI: i32 = 1;

/// The refused system calls on `arch`: those that debug, mount or reboot,
/// every call that opens a network endpoint, and `execve`; on x86_64 also
/// `execveat`.
pub open spec fn denied_syscalls_spec(arch: Arch) -> Seq<Syscall> {
    seq![
        Syscall::Ptrace,
        Syscall::Mount,
        Syscall::Umount2,
        Syscall::Reboot,
        Syscall::Socket,
        Syscall::Connect,
        Syscall::Bind,
        Syscall::Listen,
        Syscall::Execve,
    ] + if arch == Arch::X86_64 {
        seq![Syscall::Execveat]
    } else {
        Seq::empty()
    }
}

/// The file-system access rights that `AccessFs::from_all` lists for the
/// Landlock ABI with version number `version` (as `ABI::from` reads it), as
/// bits: the 13 rights of the first ABI, and one more right in each of
/// versions 2, 3, 5 and 9.
pub open spec fn fs_access_of_abi(version: i32) -> u64 {
    if version <= 0 {
        0
    } else if version == 1 {
        0x1fff
    } else if version == 2 {
        0x3fff
    } else if version <= 4 {
        0x7fff
    } else if version <= 8 {
        0xffff
    } else {
        0x1_ffff
    }
}

/// What the Landlock ruleset is built from.
pub struct LandlockPlan {
    /// The Landlock ABI whose file-system access rights are all handled.
    pub abi_version: i32,
    /// The handled file-system access rights, as Landlock's bits.
    pub handled_access: u64,
}

/// What a seccomp filter does with a system call.
#[derive(Clone, Copy, PartialEq, Eq, Structural, Debug)]
pub enum FilterAction {
    /// Let the call run.
    Allow,
    /// Fail the call with this error number.
    Errno(u32),
}

/// What the seccomp filter is built from: the refused calls, the action on
/// every other call, the action on a refused call, and the architecture the
/// filter checks for.
pub struct FilterPlan {
    pub denied: Vec<Syscall>,
    pub mismatch: FilterAction,
    pub on_match: FilterAction,
    pub arch: Arch,
}

/// Largest number of refused calls for which seccompiler's compiled program
/// stays under its limit of 4096 instructions: a program with `n` such
/// calls, each with an empty rule chain, has `5 * n + 5` instructions.
pub const MAX_DENIED: usize = 818;

/// The BPF program, as `(code, jt, jf, k)` instructions, that seccompiler
/// compiles for a filter that answers each call of `denied` (with an empty
/// rule chain) with `on_match` and every other call with `mismatch`, checking
/// for `arch`.
pub uninterp spec fn compiled_filter(
    denied: Set<i64>,
    mismatch: FilterAction,
    on_match: FilterAction,
    arch: Arch,
) -> Seq<(u16, u8, u8, u32)>;

/// The report of confinement: the Landlock status where the ruleset was
/// enforced, the outcome of the whole, and the evidence of what was handed
/// to the kernel: the handled access rights, and the installed filter.
pub struct SandboxReport {
    pub landlock: Option<RestrictionStatus>,
    pub result: Result<(), SandboxError>,
    pub handled: Option<HandledAccess>,
    pub filter: Option<FilterInstalled>,
}

/// `Access::from_all` of landlock for `AccessFs`, on `ABI::from(version)`,
/// as bits.  By their source (`ABI::from` and `AccessFs::from_read` and
/// `from_write`), the bits are `fs_access_of_abi(version)`.
#[verifier::external_body]
fn fs_access_bits(version: i32) -> (bits: u64)
    ensures
        bits == fs_access_of_abi(version),
{
    AccessFs::from_all(ABI::from(version)).bits()
}

/// `Ruleset::default` of landlock, which probes the running kernel for
/// Landlock support.  Nothing is stated of the value.
#[verifier::external_body]
fn default_ruleset() -> Ruleset {
    Ruleset::default()
}

/// `Ruleset::create` of landlock, which asks the kernel for a ruleset.
/// Whether it succeeds is not stated.
#[verifier::external_body]
fn create_ruleset(ruleset: Ruleset) -> Result<RulesetCreated, RulesetError> {
    ruleset.create()
}

/// `RulesetCreated::restrict_self` of landlock, which confines the calling
/// thread.  Whether it succeeds, and the status it reports, are not stated.
#[verifier::external_body]
fn restrict_self(ruleset: RulesetCreated) -> Result<RestrictionStatus, RulesetError> {
    ruleset.restrict_self()
}

/// The Landlock ruleset of this worker: every file-system access right of
/// ABI version `LANDLOCK_ABI`, which are the 13 rights of bits `0x1fff`.
pub fn landlock_plan() -> (plan: LandlockPlan)
    ensures
        plan.abi_version == LANDLOCK_ABI,
        plan.handled_access == fs_access_of_abi(LANDLOCK_ABI),
        plan.handled_access == 0x1fff,
{
    LandlockPlan { abi_version: LANDLOCK_ABI, handled_access: fs_access_bits(LANDLOCK_ABI) }
}

/// A Landlock step's result as the library reports it: the value where the
/// step succeeded, else its error, unchanged, as a `Landlock` error.
pub fn landlock_result<T>(step: Result<T, RulesetError>) -> (r: Result<T, SandboxError>)
    ensures
        step matches Ok(v) ==> r == Ok::<T, SandboxError>(v),
        step matches Err(e) ==> r == Err::<T, SandboxError>(SandboxError::Landlock(e)),
{
    match step {
        Ok(v) => Ok(v),
        Err(e) => Err(SandboxError::Landlock(e)),
    }
}

/// Builds and enforces the Landlock ruleset of `landlock_plan`: its access
/// rights are handled, and none is granted back.  The steps (handle the
/// rights, create the ruleset, restrict the thread) run in order; the first
/// that fails ends it with its error as `landlock_result` maps it, and the
/// later ones do not run.  On success, the status that Landlock reports and
/// the evidence that the rights handed to Landlock were `0x1fff`, all the
/// rights of the first ABI.
pub fn restrict_filesystem_with_landlock() -> (r: Result<
    (RestrictionStatus, HandledAccess),
    SandboxError,
>)
    ensures
        r is Err ==> r->Err_0 is Landlock,
        r matches Ok(done) ==> done.1.bits() == fs_access_of_abi(LANDLOCK_ABI),
        r matches Ok(done) ==> done.1.bits() == 0x1fff,
{
    let plan = landlock_plan();
    let (ruleset, handled) = match landlock_result(
        handle_fs_access(default_ruleset(), plan.handled_access),
    ) {
        Ok(done) => done,
        Err(e) => return Err(e),
    };
    let created = match landlock_result(create_ruleset(ruleset)) {
        Ok(created) => created,
        Err(e) => return Err(e),
    };
    match landlock_result(restrict_self(created)) {
        Ok(status) => Ok((status, handled)),
        Err(e) => Err(e),
    }
}

/// The list of refused system calls on `arch`.
pub fn denied_syscalls(arch: Arch) -> (calls: Vec<Syscall>)
    ensures
        calls@ == denied_syscalls_spec(arch),
{
    let mut calls: Vec<Syscall> = Vec::new();
    calls.push(Syscall::Ptrace);
    calls.push(Syscall::Mount);
    calls.push(Syscall::Umount2);
    calls.push(Syscall::Reboot);
    calls.push(Syscall::Socket);
    calls.push(Syscall::Connect);
    calls.push(Syscall::Bind);
    calls.push(Syscall::Listen);
    calls.push(Syscall::Execve);
    if arch == Arch::X86_64 {
        calls.push(Syscall::Execveat);
    }
    assert(calls@ =~= denied_syscalls_spec(arch));
    calls
}

/// `libc::SYS_ptrace` for the target being built.  Its value differs from one
/// target to the next; on every Linux target of `libc` it is a small
/// non-negative number.
#[verifier::external_body]
fn sys_ptrace() -> (n: i64)
    ensures
        0 <= n <= u32::MAX,
{
    libc::SYS_ptrace
}

/// `libc::SYS_mount` for the target being built.  Its value differs from one
/// target to the next; on every Linux target of `libc` it is a small
/// non-negative number.
#[verifier::external_body]
fn sys_mount() -> (n: i64)
    ensures
        0 <= n <= u32::MAX,
{
    libc::SYS_mount
}

/// `libc::SYS_umount2` for the target being built.  Its value differs from one
/// target to the next; on every Linux target of `libc` it is a small
/// non-negative number.
#[verifier::external_body]
fn sys_umount2() -> (n: i64)
    ensures
        0 <= n <= u32::MAX,
{
    libc::SYS_umount2
}

/// `libc::SYS_reboot` for the target being built.  Its value differs from one
/// target to the next; on every Linux target of `libc` it is a small
/// non-negative number.
#[verifier::external_body]
fn sys_reboot() -> (n: i64)
    ensures
        0 <= n <= u32::MAX,
{
    libc::SYS_reboot
}

/// `libc::SYS_socket` for the target being built.  Its value differs from one
/// target to the next; on every Linux target of `libc` it is a small
/// non-negative number.
#[verifier::external_body]
fn sys_socket() -> (n: i64)
    ensures
        0 <= n <= u32::MAX,
{
    libc::SYS_socket
}

/// `libc::SYS_connect` for the target being built.  Its value differs from one
/// target to the next; on every Linux target of `libc` it is a small
/// non-negative number.
#[verifier::external_body]
fn sys_connect() -> (n: i64)
    ensures
        0 <= n <= u32::MAX,
{
    libc::SYS_connect
}

/// `libc::SYS_bind` for the target being built.  Its value differs from one
/// target to the next; on every Linux target of `libc` it is a small
/// non-negative number.
#[verifier::external_body]
fn sys_bind() -> (n: i64)
    ensures
        0 <= n <= u32::MAX,
{
    libc::SYS_bind
}

/// `libc::SYS_listen` for the target being built.  Its value differs from one
/// target to the next; on every Linux target of `libc` it is a small
/// non-negative number.
#[verifier::external_body]
fn sys_listen() -> (n: i64)
    ensures
        0 <= n <= u32::MAX,
{
    libc::SYS_listen
}

/// `libc::SYS_execve` for the target being built.  Its value differs from one
/// target to the next; on every Linux target of `libc` it is a small
/// non-negative number.
#[verifier::external_body]
fn sys_execve() -> (n: i64)
    ensures
        0 <= n <= u32::MAX,
{
    libc::SYS_execve
}

/// `libc::SYS_execveat` for the target being built.  Its value differs from one
/// target to the next; on every Linux target of `libc` it is a small
/// non-negative number.
#[verifier::external_body]
fn sys_execveat() -> (n: i64)
    ensures
        0 <= n <= u32::MAX,
{
    libc::SYS_execveat
}

/// The number of `call` in the `libc` crate for the target being built.
fn syscall_number(call: Syscall) -> (n: i64)
    ensures
        0 <= n <= u32::MAX,
{
    match call {
        Syscall::Ptrace => sys_ptrace(),
        Syscall::Mount => sys_mount(),
        Syscall::Umount2 => sys_umount2(),
        Syscall::Reboot => sys_reboot(),
        Syscall::Socket => sys_socket(),
        Syscall::Connect => sys_connect(),
        Syscall::Bind => sys_bind(),
        Syscall::Listen => sys_listen(),
        Syscall::Execve => sys_execve(),
        Syscall::Execveat => sys_execveat(),
    }
}

/// `libc::EPERM`, the error number of a refused operation, which is 1 on
/// every Linux target of `libc`.
#[verifier::external_body]
fn permission_denied() -> (errno: i32)
    ensures
        errno == 1,
{
    libc::EPERM
}

/// `SeccompFilter::new` of seccompiler on `rules` and the plan's actions and
/// architecture (each converted to seccompiler's variant of the same name),
/// then `TryFrom<SeccompFilter> for BpfProgram`, which compiles the filter;
/// the instructions are converted to plain tuples.  By their source: `new`
/// refuses exactly equal actions; compiling panics on a key outside `u32`,
/// and refuses a program of 4096 instructions or more, which rules with at
/// most `MAX_DENIED` empty chains never reach.  The program is named
/// `compiled_filter` of the keys, actions and architecture.
#[verifier::external_body]
fn build_filter(rules: BTreeMap<i64, Vec<SeccompRule>>, plan: &FilterPlan) -> (r: Result<
    Vec<(u16, u8, u8, u32)>,
    BackendError,
>)
    requires
        forall|k: i64| #[trigger] rules@.contains_key(k) ==> 0 <= k <= u32::MAX,
    ensures
        plan.mismatch == plan.on_match ==> r is Err,
        plan.mismatch != plan.on_match && rules@.len() <= MAX_DENIED && (forall|k: i64|
            #[trigger] rules@.contains_key(k) ==> rules@[k]@.len() == 0) ==> (r is Ok
            && r->Ok_0@ == compiled_filter(rules@.dom(), plan.mismatch, plan.on_match, plan.arch)),
{
    let action = |a: FilterAction| match a {
        FilterAction::Allow => SeccompAction::Allow,
        FilterAction::Errno(errno) => SeccompAction::Errno(errno),
    };
    let arch = match plan.arch {
        Arch::X86_64 => TargetArch::x86_64,
        Arch::Aarch64 => TargetArch::aarch64,
        Arch::Riscv64 => TargetArch::riscv64,
    };
    let filter = SeccompFilter::new(rules, action(plan.mismatch), action(plan.on_match), arch)?;
    let program: BpfProgram = filter.try_into()?;
    Ok(program.into_iter().map(|f| (f.code, f.jt, f.jf, f.k)).collect())
}

/// Adds to `map` the rule chain that refuses `syscall` unconditionally: an
/// empty chain, which every call of it matches.
pub fn add_deny(map: &mut BTreeMap<i64, Vec<SeccompRule>>, syscall: i64) -> (r: Result<
    (),
    SandboxError,
>)
    ensures
        final(map)@ == old(map)@.insert(syscall, final(map)@[syscall]),
        final(map)@[syscall]@ == Seq::<SeccompRule>::empty(),
        r is Ok,
{
    map.insert(syscall, Vec::new());
    Ok(())
}

/// The `libc` numbers of `calls`, in the same order; each fits in a `u32`.
pub fn syscall_numbers(calls: &Vec<Syscall>) -> (numbers: Vec<i64>)
    ensures
        numbers@.len() == calls@.len(),
        forall|i: int| 0 <= i < numbers@.len() ==> 0 <= #[trigger] numbers@[i] <= u32::MAX,
{
    let mut numbers: Vec<i64> = Vec::new();
    let mut i: usize = 0;
    while i < calls.len()
        invariant
            i <= calls@.len(),
            numbers@.len() == i,
            forall|j: int| 0 <= j < numbers@.len() ==> 0 <= #[trigger] numbers@[j] <= u32::MAX,
        decreases calls@.len() - i,
    {
        numbers.push(syscall_number(calls[i]));
        i = i + 1;
    }
    numbers
}

/// The seccomp rules that refuse each of `numbers` unconditionally: one
/// empty rule chain per number, and nothing else.
pub fn deny_rules(numbers: &Vec<i64>) -> (rules: BTreeMap<i64, Vec<SeccompRule>>)
    ensures
        rules@.dom() == numbers@.to_set(),
        forall|k: i64| #[trigger] rules@.contains_key(k) ==> rules@[k]@ == Seq::<SeccompRule>::empty(),
{
    let mut rules: BTreeMap<i64, Vec<SeccompRule>> = BTreeMap::new();
    let mut i: usize = 0;
    while i < numbers.len()
        invariant
            i <= numbers@.len(),
            rules@.dom() == numbers@.take(i as int).to_set(),
            forall|k: i64| #[trigger] rules@.contains_key(k) ==> rules@[k]@ == Seq::<SeccompRule>::empty(),
        decreases numbers@.len() - i,
    {
        let _ = add_deny(&mut rules, numbers[i]);
        proof {
            numbers@.take(i as int).lemma_push_to_set_commute(numbers@[i as int]);
            assert(numbers@.take(i as int).push(numbers@[i as int]) =~= numbers@.take(i + 1));
        }
        i = i + 1;
    }
    assert(numbers@.take(numbers@.len() as int) =~= numbers@);
    rules
}

/// The seccomp filter of this worker for `arch`: refuse the calls of
/// `denied_syscalls(arch)` with `errno`, allow every other call.
pub fn seccomp_plan(arch: Arch, errno: u32) -> (plan: FilterPlan)
    ensures
        plan.denied@ == denied_syscalls_spec(arch),
        plan.mismatch == FilterAction::Allow,
        plan.on_match == FilterAction::Errno(errno),
        plan.arch == arch,
{
    FilterPlan {
        denied: denied_syscalls(arch),
        mismatch: FilterAction::Allow,
        on_match: FilterAction::Errno(errno),
        arch,
    }
}

/// The BPF program of the filter that refuses each of `numbers` as `plan`
/// says: seccompiler's compilation of one empty rule chain per number, with
/// the plan's actions and architecture.  Equal actions are refused.
pub fn seccomp_program(numbers: &Vec<i64>, plan: &FilterPlan) -> (r: Result<
    Vec<(u16, u8, u8, u32)>,
    SandboxError,
>)
    requires
        forall|i: int| 0 <= i < numbers@.len() ==> 0 <= #[trigger] numbers@[i] <= u32::MAX,
    ensures
        plan.mismatch == plan.on_match ==> (r matches Err(e) && e is SeccompBackend),
        plan.mismatch != plan.on_match && numbers@.len() <= MAX_DENIED ==> (r matches Ok(program)
            && program@ == compiled_filter(
            numbers@.to_set(),
            plan.mismatch,
            plan.on_match,
            plan.arch,
        )),
        r is Err ==> r->Err_0 is SeccompBackend,
{
    let rules = deny_rules(numbers);
    proof {
        numbers@.lemma_cardinality_of_set();
        assert forall|k: i64| #[trigger] rules@.contains_key(k) implies 0 <= k <= u32::MAX by {
            assert(numbers@.contains(k));
            let i = choose|i: int| 0 <= i < numbers@.len() && numbers@[i] == k;
            assert(0 <= numbers@[i] <= u32::MAX);
        }
    }
    match build_filter(rules, plan) {
        Ok(program) => Ok(program),
        Err(e) => Err(SandboxError::SeccompBackend(e)),
    }
}

/// The seccomp step's result as the library reports it: the value where the
/// kernel installed the filter, else its error, unchanged, as a `Seccomp`
/// error.
pub fn seccomp_result<T>(step: Result<T, seccompiler::Error>) -> (r: Result<T, SandboxError>)
    ensures
        step is Ok <==> r is Ok,
        step matches Ok(v) ==> r == Ok::<T, SandboxError>(v),
        step matches Err(e) ==> r == Err::<T, SandboxError>(SandboxError::Seccomp(e)),
{
    match step {
        Ok(v) => Ok(v),
        Err(e) => Err(SandboxError::Seccomp(e)),
    }
}

/// The filter programs that this worker installs on `arch`: seccompiler's
/// compilation of a filter that refuses, with `EPERM` (1), the calls whose
/// `libc` numbers are `numbers` and allows every other call, for some list
/// `numbers` with one number per call of `denied_syscalls_spec(arch)`.
pub open spec fn worker_filter(arch: Arch, program: Seq<(u16, u8, u8, u32)>) -> bool {
    exists|numbers: Seq<i64>|
        #![trigger numbers.to_set()]
        numbers.len() == denied_syscalls_spec(arch).len() && program == compiled_filter(
            numbers.to_set(),
            FilterAction::Allow,
            FilterAction::Errno(1),
            arch,
        )
}

/// Builds the program of `seccomp_program` for `seccomp_plan(arch, EPERM)`
/// and the `libc` numbers of its calls, and installs it on the calling
/// thread; the result is what `seccomp_result` makes of the kernel's answer,
/// with the evidence of the installed program on success.  Building the
/// program cannot fail.
pub fn install_seccomp(arch: Arch) -> (r: Result<FilterInstalled, SandboxError>)
    ensures
        r is Err ==> r->Err_0 is Seccomp,
        r matches Ok(installed) ==> worker_filter(arch, installed.program()),
{
    let plan = seccomp_plan(arch, permission_denied() as u32);
    let numbers = syscall_numbers(&plan.denied);
    let program = match seccomp_program(&numbers, &plan) {
        Ok(program) => program,
        Err(e) => return Err(e),
    };
    let ghost built = program@;
    let r = seccomp_result(apply_filter(program));
    proof {
        assert(built == compiled_filter(
            numbers@.to_set(),
            FilterAction::Allow,
            FilterAction::Errno(1),
            arch,
        ));
    }
    r
}

/// How confinement ends once its steps have run: where the Landlock step
/// failed, its error, unchanged, and no status or evidence (the seccomp step
/// is then not run, `None`); else the Landlock status and evidence, and the
/// seccomp step's outcome: success with the installed filter's evidence, or
/// its error, unchanged.
pub fn sandbox_outcome(
    landlock: Result<(RestrictionStatus, HandledAccess), SandboxError>,
    seccomp: Option<Result<FilterInstalled, SandboxError>>,
) -> (report: SandboxReport)
    requires
        landlock is Ok <==> seccomp is Some,
    ensures
        landlock matches Err(e) ==> report.landlock is None && report.handled is None
            && report.filter is None && report.result == Err::<(), SandboxError>(e),
        landlock matches Ok(done) ==> report.landlock == Some(done.0) && report.handled == Some(
            done.1,
        ),
        seccomp matches Some(Ok(installed)) ==> report.result is Ok && report.filter == Some(
            installed,
        ),
        seccomp matches Some(Err(e)) ==> report.result == Err::<(), SandboxError>(e)
            && report.filter is None,
{
    match landlock {
        Err(e) => SandboxReport { landlock: None, result: Err(e), handled: None, filter: None },
        Ok((status, handled)) => match seccomp {
            Some(Ok(installed)) => SandboxReport {
                landlock: Some(status),
                result: Ok(()),
                handled: Some(handled),
                filter: Some(installed),
            },
            Some(Err(e)) => SandboxReport {
                landlock: Some(status),
                result: Err(e),
                handled: Some(handled),
                filter: None,
            },
            None => SandboxReport {
                landlock: Some(status),
                result: Ok(()),
                handled: Some(handled),
                filter: None,
            },
        },
    }
}

/// Confines the calling process: the Landlock ruleset first, then, only if
/// it is in force, the seccomp filter for `arch`; `sandbox_outcome` makes
/// the report.  The Landlock status is reported exactly where the outcome is
/// no Landlock error; where Landlock succeeded, the rights it was handed are
/// `0x1fff`, and the outcome is success exactly where the worker's filter
/// for `arch` was installed.
pub fn apply_sandbox(arch: Arch) -> (report: SandboxReport)
    ensures
        report.result is Err ==> (report.result->Err_0 is Landlock || report.result->Err_0 is Seccomp),
        report.landlock is None <==> (report.result matches Err(e) && e is Landlock),
        report.landlock is Some ==> (report.handled matches Some(h) && h.bits() == 0x1fff),
        report.landlock is Some ==> (report.result is Ok <==> report.filter is Some),
        report.filter matches Some(installed) ==> worker_filter(arch, installed.program()),
        report.result is Ok ==> (report.handled matches Some(h) && h.bits() == 0x1fff)
            && (report.filter matches Some(installed) && worker_filter(arch, installed.program())),
{
    let landlock = restrict_filesystem_with_landlock();
    let seccomp = match &landlock {
        Ok(_) => Some(install_seccomp(arch)),
        Err(_) => None,
    };
    sandbox_outcome(landlock, seccomp)
}

} // verus!
