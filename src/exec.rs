//! Starting a program of the boot filesystem from a system call.
use vstd::prelude::*;
use crate::abi::EINVAL;
use crate::error::KernelError;
use crate::task::{ProcessId, ThreadId};

verus! {

/// Longest string that is read from a caller's memory, terminator excluded.
pub const MAX_USER_STR: usize = 256;

/// Size of the kernel stack of a thread that exec creates.
pub const KERNEL_THREAD_STACK_SIZE: usize = 16384;

/// Priority of a process that exec creates.
pub const EXEC_PRIORITY: u8 = 0;

/// Priority of a service that the kernel spawns.
pub const SERVICE_PRIORITY: u8 = 1;

/// Length of the zero-terminated string at the start of `window`: the
/// position of the first zero byte. `None` when no zero byte comes within
/// the first `MAX_USER_STR + 1` bytes of `window`.
pub fn terminated_len(window: &[u8]) -> (r: Option<usize>)
    ensures
        r matches Some(n) ==> n <= MAX_USER_STR && n < window@.len() && window@[n as int] == 0
            && forall|k: int| 0 <= k < n ==> window@[k] != 0,
        r is None ==> forall|k: int| 0 <= k < window@.len() && k <= MAX_USER_STR ==> window@[k] != 0,
{
    let mut i: usize = 0;
    while i < window.len() && i <= MAX_USER_STR
        invariant
            i <= window@.len(),
            i <= MAX_USER_STR + 1,
            forall|k: int| 0 <= k < i ==> window@[k] != 0,
        decreases window@.len() - i,
    {
        if window[i] == 0 {
            return Some(i);
        }
        i = i + 1;
    }
    None
}

/// The path that exec runs: the one given, or `/hello.bin`.
pub fn exec_path(provided: Option<&'static str>) -> (r: &'static str)
    ensures
        provided matches Some(p) ==> r == p,
        provided is None ==> r@ == "/hello.bin"@,
{
    match provided {
        Some(p) => p,
        None => "/hello.bin",
    }
}

/// The sentinel that stands for an internal error at the system-call
/// boundary: every error becomes EINVAL.
pub fn error_code(e: KernelError) -> (r: u64)
    ensures
        r == EINVAL,
{
    EINVAL
}

/// What exec returns: the new process's identifier, or EINVAL.
pub fn exec_result(spawned: Result<(ProcessId, ThreadId), KernelError>) -> (r: u64)
    ensures
        spawned matches Ok((p, _)) ==> r == p.value(),
        spawned is Err ==> r == EINVAL,
{
    match spawned {
        Ok((pid, _)) => pid.as_u64(),
        Err(e) => error_code(e),
    }
}

} // verus!
