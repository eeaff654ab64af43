//! Linux error numbers used by the scheduler, taken from `libc`.

use vstd::prelude::*;

verus! {

/// `libc::EPERM` ("operation not permitted"); `libc` defines it as 1 on Linux.
#[verifier::external_body]
pub(crate) fn eperm() -> (r: i32)
    ensures
        r == 1,
{
    libc::EPERM
}

/// `libc::EAGAIN` ("try again"); `libc` defines it as 11 on Linux (the ABI
/// the scheduler serves; Apple hosts number it 35).
#[verifier::external_body]
pub(crate) fn eagain() -> (r: i32)
    ensures
        r == 11,
{
    libc::EAGAIN
}

/// `libc::EDEADLK` ("resource deadlock would occur"); `libc` defines it as 35
/// on the Linux targets this library runs on (RISC-V, x86, Arm). MIPS and
/// SPARC Linux, and Apple hosts, number it differently; this contract does
/// not hold there.
#[verifier::external_body]
pub(crate) fn edeadlk() -> (r: i32)
    ensures
        r == 35,
{
    libc::EDEADLK
}

/// `-e` as a syscall return value.
pub fn neg_errno(e: i32) -> (r: isize)
    requires
        e != i32::MIN,
    ensures
        r == -e,
{
    -(e as isize)
}

} // verus!
