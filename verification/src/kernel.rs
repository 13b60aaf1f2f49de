//! Evidence of what this library handed to the kernel.
//!
//! A value of `HandledAccess` or `FilterInstalled` can only be made here, by
//! the call that hands the access rights to Landlock or installs the seccomp
//! filter; it records what that call was given.  The confinement functions
//! pass the evidence on, so their contracts can say what was handed over.
use landlock::{AccessFs, BitFlags, Ruleset, RulesetAttr, RulesetError};
use seccompiler::{sock_filter, BpfProgram};
use vstd::prelude::*;

verus! {

/// Evidence that Landlock was asked to handle the access rights `bits`.
pub struct HandledAccess {
    bits: u64,
}

impl HandledAccess {
    /// The access rights that Landlock was asked to handle, as its bits.
    pub closed spec fn bits(&self) -> u64 {
        self.bits
    }
}

/// Evidence that seccompiler installed `program` on the calling thread.
pub struct FilterInstalled {
    program: Vec<(u16, u8, u8, u32)>,
}

impl FilterInstalled {
    /// The BPF program that was installed, as `(code, jt, jf, k)` tuples.
    pub closed spec fn program(&self) -> Seq<(u16, u8, u8, u32)> {
        self.program@
    }
}

/// `RulesetAttr::handle_access` of landlock on the access rights whose bits
/// are `access` (converted with `BitFlags::from_bits_truncate`): the ruleset
/// will handle, and so deny unless granted, those rights.  On success the
/// ruleset comes with the evidence of `access`.  Whether it succeeds, which
/// depends on the running kernel's support, is not stated.
#[verifier::external_body]
pub(crate) fn handle_fs_access(ruleset: Ruleset, access: u64) -> (r: Result<
    (Ruleset, HandledAccess),
    RulesetError,
>)
    ensures
        r matches Ok(done) ==> done.1.bits() == access,
{
    match ruleset.handle_access(BitFlags::<AccessFs>::from_bits_truncate(access)) {
        Ok(ruleset) => Ok((ruleset, HandledAccess { bits: access })),
        Err(e) => Err(e),
    }
}

/// `seccompiler::apply_filter` on `program` (each tuple converted to a
/// `sock_filter`): installs it on the calling thread, and on success gives
/// the evidence of `program`.  Its source refuses an empty program; whether
/// the kernel accepts the program is not stated.
#[verifier::external_body]
pub(crate) fn apply_filter(program: Vec<(u16, u8, u8, u32)>) -> (r: Result<
    FilterInstalled,
    seccompiler::Error,
>)
    ensures
        program@.len() == 0 ==> r is Err,
        r matches Ok(installed) ==> installed.program() == program@,
{
    let filter: BpfProgram =
        program.iter().map(|&(code, jt, jf, k)| sock_filter { code, jt, jf, k }).collect();
    match seccompiler::apply_filter(&filter) {
        Ok(()) => Ok(FilterInstalled { program }),
        Err(e) => Err(e),
    }
}

} // verus!
