//! System-call dispatch. `dispatch` is total over the operation code: it
//! completes the operations that only touch kernel state, and names in its
//! `Action` the work that needs the caller's memory or a context switch.
use vstd::prelude::*;
use vstd::string::StringSliceAdditionalSpecFns;
use vstd::utf8::valid_utf8;
use crate::abi::{
    spec_decode, SyscallNumber, EINVAL, ENOENT, ENOSYS, ERROR_FLOOR, SUCCESS, SYS_BRK, SYS_EXIT,
    SYS_MMAP, SYS_READ, SYS_WRITE,
};
use crate::ipc::{recv, recv_outcome, send, send_outcome, Message};
use crate::kernel::{processes_without, threads_without, Kernel};
use crate::text::str_from_utf8;

verus! {

/// Longest path that a boot-filesystem read accepts.
pub const MAX_PATH_LEN: u64 = 256;

/// Longest thread name that a lookup by name accepts.
pub const MAX_NAME_LEN: u64 = 256;

/// Fewest yields of a sleep.
pub const SLEEP_MIN_YIELDS: u64 = 1;

/// Most yields of a sleep.
pub const SLEEP_MAX_YIELDS: u64 = 100;

/// What is left to do after `dispatch` to finish a system call.
#[derive(Debug, Clone, Copy, PartialEq, Eq, Structural)]
pub enum Action {
    /// Return this value to the caller.
    Return(u64),
    /// Save the caller's context, switch to the next ready thread, and return
    /// SUCCESS when the caller runs again.
    Yield,
    /// Store `sender` at the caller's address `addr`, then return `value`.
    StoreSender { addr: u64, sender: u64, value: u64 },
    /// Read `len` bytes at the caller's address `ptr`, check them with
    /// `user_text`, write them to the console and return `len`.
    ConsoleWrite { ptr: u64, len: u64 },
    /// Read the path of `path_len` bytes at `path_ptr`, look it up in the boot
    /// filesystem, copy at most `buf_len` bytes to `buf_ptr`, and return what
    /// `initfs_read_result` gives.
    InitfsRead { path_ptr: u64, path_len: u64, buf_ptr: u64, buf_len: u64 },
    /// The calling process has ended with `code`; switch to another thread.
    /// The caller never runs again.
    Exit { code: u64 },
    /// Read the name of `len` bytes at `ptr` and return what
    /// `Kernel::thread_id_by_name` gives for it.
    ThreadIdByName { ptr: u64, len: u64 },
}

/// The codes that one of the two tables recognises.
pub open spec fn is_known_code(num: u64) -> bool {
    spec_decode(num) is Some || num == SYS_READ || num == SYS_WRITE || num == SYS_MMAP || num == SYS_BRK
        || num == SYS_EXIT
}

/// What a console write of `len` bytes at `ptr` asks for.
pub open spec fn console_write_action(ptr: u64, len: u64) -> Action {
    if ptr == 0 || len >= ERROR_FLOOR {
        Action::Return(EINVAL)
    } else if len == 0 {
        Action::Return(0)
    } else {
        Action::ConsoleWrite { ptr, len }
    }
}

/// What a compatibility `write` to descriptor `fd` asks for: only standard
/// output and standard error are accepted.
pub open spec fn linux_write_action(fd: u64, ptr: u64, len: u64) -> Action {
    if ptr == 0 {
        Action::Return(EINVAL)
    } else if len == 0 {
        Action::Return(0)
    } else if fd != 1 && fd != 2 {
        Action::Return(EINVAL)
    } else {
        console_write_action(ptr, len)
    }
}

/// What a boot-filesystem read asks for.
pub open spec fn initfs_read_action(path_ptr: u64, path_len: u64, buf_ptr: u64, buf_len: u64) -> Action {
    if path_ptr == 0 || path_len == 0 || path_len > MAX_PATH_LEN || buf_ptr == 0 {
        Action::Return(EINVAL)
    } else {
        Action::InitfsRead { path_ptr, path_len, buf_ptr, buf_len }
    }
}

/// What a lookup of a thread by name asks for.
pub open spec fn thread_by_name_action(ptr: u64, len: u64) -> Action {
    if ptr == 0 || len == 0 || len > MAX_NAME_LEN {
        Action::Return(EINVAL)
    } else {
        Action::ThreadIdByName { ptr, len }
    }
}

/// What the receive of `res` asks for, with the sender stored at `addr`
/// unless `addr` is 0.
pub open spec fn recv_action(res: Result<Message, u64>, addr: u64) -> Action {
    match res {
        Err(e) => Action::Return(e),
        Ok(m) => if addr != 0 {
            Action::StoreSender { addr, sender: m.from, value: m.value }
        } else {
            Action::Return(m.value)
        },
    }
}

/// `new` is `old` after the current process has exited: that process and
/// its threads are gone and no thread is current; with no current thread,
/// nothing changed.
pub open spec fn exit_effect(old: &Kernel, new: &Kernel) -> bool {
    match old.spec_current() {
        None => new.same(old),
        Some(t) => exists|i: int| 0 <= i < old.spec_threads().len()
            && (#[trigger] old.spec_threads()[i]).spec_id() == t
            && new.spec_processes() == processes_without(old.spec_processes(), old.spec_threads()[i].spec_process_id())
            && new.spec_threads() == threads_without(old.spec_threads(), old.spec_threads()[i].spec_process_id())
            && new.spec_current() is None
            && new.same_queues(old)
            && new.same_counters(old),
    }
}

/// Only the mailboxes changed, to `boxes`.
pub open spec fn mailboxes_changed(old: &Kernel, new: &Kernel, boxes: Seq<Seq<Message>>) -> bool {
    &&& new.same_tables(old)
    &&& new.same_counters(old)
    &&& new.spec_mailboxes() == boxes
    &&& new.spec_ticks() == old.spec_ticks()
    &&& new.spec_keys() == old.spec_keys()
}

/// The effect of taking a key code: the oldest code, or ENODATA.
pub open spec fn key_effect(old: &Kernel, new: &Kernel, r: Action) -> bool {
    &&& new.same_tables(old)
    &&& new.same_counters(old)
    &&& new.spec_mailboxes() == old.spec_mailboxes()
    &&& new.spec_ticks() == old.spec_ticks()
    &&& if old.spec_keys().len() == 0 {
        r == Action::Return(crate::abi::ENODATA) && new.spec_keys() == old.spec_keys()
    } else {
        r == Action::Return(old.spec_keys()[0] as u64) && new.spec_keys() == old.spec_keys().drop_first()
    }
}

/// The identifier of the current thread, or 0 when none is current.
pub open spec fn current_id_value(k: &Kernel) -> u64 {
    match k.spec_current() {
        Some(t) => t.value(),
        None => 0,
    }
}

/// Routes operation `num` with arguments `arg0`..`arg4` to its handler.
/// The native table comes first; a code that it does not know is looked up
/// in the compatibility table; any other code returns ENOSYS and changes
/// nothing. The compatibility codes of `write` (1) and `mmap` (9) equal the
/// native codes of Yield and GetThreadId, so the native operations win and
/// the compatibility `write` and `mmap` can never be reached through this
/// function; `linux_write` states what such a write would ask for.
pub fn dispatch(kernel: &mut Kernel, num: u64, arg0: u64, arg1: u64, arg2: u64, arg3: u64, arg4: u64) -> (r: Action)
    requires
        old(kernel).wf(),
    ensures
        final(kernel).wf(),
        !is_known_code(num) ==> r == Action::Return(ENOSYS) && final(kernel).same(old(kernel)),
        match spec_decode(num) {
            Some(SyscallNumber::Yield) => r == Action::Yield && final(kernel).same(old(kernel)),
            Some(SyscallNumber::GetTicks) => r == Action::Return(old(kernel).spec_ticks())
                && final(kernel).same(old(kernel)),
            Some(SyscallNumber::IpcSend) => {
                let (v, boxes) = send_outcome(old(kernel).spec_mailboxes(), old(kernel).spec_current(), arg0, arg1);
                r == Action::Return(v) && mailboxes_changed(old(kernel), final(kernel), boxes)
            },
            Some(SyscallNumber::IpcRecv) => {
                let (res, boxes) = recv_outcome(old(kernel).spec_mailboxes(), old(kernel).spec_current());
                r == recv_action(res, arg0) && mailboxes_changed(old(kernel), final(kernel), boxes)
            },
            Some(SyscallNumber::ConsoleWrite) => r == console_write_action(arg0, arg1)
                && final(kernel).same(old(kernel)),
            Some(SyscallNumber::InitfsRead) => r == initfs_read_action(arg0, arg1, arg2, arg3)
                && final(kernel).same(old(kernel)),
            Some(SyscallNumber::Exit) => r == (Action::Exit { code: arg0 }) && exit_effect(old(kernel), final(kernel)),
            Some(SyscallNumber::KeyboardRead) => key_effect(old(kernel), final(kernel), r),
            Some(SyscallNumber::GetThreadId) => r == Action::Return(current_id_value(old(kernel)))
                && current_id_value(old(kernel)) < ERROR_FLOOR && final(kernel).same(old(kernel)),
            Some(SyscallNumber::GetThreadIdByName) => r == thread_by_name_action(arg0, arg1)
                && final(kernel).same(old(kernel)),
            None => if num == SYS_WRITE {
                r == linux_write_action(arg0, arg1, arg2) && final(kernel).same(old(kernel))
            } else if num == SYS_EXIT {
                r == (Action::Exit { code: arg0 }) && exit_effect(old(kernel), final(kernel))
            } else {
                r == Action::Return(ENOSYS) && final(kernel).same(old(kernel))
            },
        },
{
    match SyscallNumber::from_code(num) {
        Some(SyscallNumber::Yield) => Action::Yield,
        Some(SyscallNumber::GetTicks) => Action::Return(kernel.ticks()),
        Some(SyscallNumber::IpcSend) => {
            let v = send(&mut kernel.mailboxes, kernel.current, arg0, arg1);
            Action::Return(v)
        },
        Some(SyscallNumber::IpcRecv) => {
            let res = recv(&mut kernel.mailboxes, kernel.current);
            match res {
                Err(e) => Action::Return(e),
                Ok(m) => if arg0 != 0 {
                    Action::StoreSender { addr: arg0, sender: m.from, value: m.value }
                } else {
                    Action::Return(m.value)
                },
            }
        },
        Some(SyscallNumber::ConsoleWrite) => console_write(arg0, arg1),
        Some(SyscallNumber::InitfsRead) => initfs_read(arg0, arg1, arg2, arg3),
        Some(SyscallNumber::Exit) => exit(kernel, arg0),
        Some(SyscallNumber::KeyboardRead) => Action::Return(kernel.read_key()),
        Some(SyscallNumber::GetThreadId) => Action::Return(gettid(kernel)),
        Some(SyscallNumber::GetThreadIdByName) => thread_id_by_name(arg0, arg1),
        None => {
            if num == SYS_READ {
                Action::Return(linux_read(arg0, arg1, arg2))
            } else if num == SYS_WRITE {
                linux_write(arg0, arg1, arg2)
            } else if num == SYS_MMAP || num == SYS_BRK {
                Action::Return(ENOSYS)
            } else if num == SYS_EXIT {
                exit(kernel, arg0)
            } else {
                Action::Return(ENOSYS)
            }
        },
    }
}

/// A console write of `len` bytes at `ptr`: EINVAL for a null pointer or a
/// length in the reserved range, 0 for an empty write.
pub fn console_write(ptr: u64, len: u64) -> (r: Action)
    ensures
        r == console_write_action(ptr, len),
{
    if ptr == 0 || len >= ERROR_FLOOR {
        Action::Return(EINVAL)
    } else if len == 0 {
        Action::Return(0)
    } else {
        Action::ConsoleWrite { ptr, len }
    }
}

/// A compatibility `write`: as a console write, for standard output and
/// standard error only.
pub fn linux_write(fd: u64, buf_ptr: u64, len: u64) -> (r: Action)
    ensures
        r == linux_write_action(fd, buf_ptr, len),
{
    if buf_ptr == 0 {
        return Action::Return(EINVAL);
    }
    if len == 0 {
        return Action::Return(0);
    }
    if fd != 1 && fd != 2 {
        return Action::Return(EINVAL);
    }
    console_write(buf_ptr, len)
}

/// A compatibility `read`: not implemented.
pub fn linux_read(fd: u64, buf_ptr: u64, len: u64) -> (r: u64)
    ensures
        r == ENOSYS,
{
    ENOSYS
}

/// A boot-filesystem read: EINVAL for a null pointer or a path that is
/// empty or longer than `MAX_PATH_LEN`.
pub fn initfs_read(path_ptr: u64, path_len: u64, buf_ptr: u64, buf_len: u64) -> (r: Action)
    ensures
        r == initfs_read_action(path_ptr, path_len, buf_ptr, buf_len),
{
    if path_ptr == 0 || path_len == 0 || path_len > MAX_PATH_LEN || buf_ptr == 0 {
        Action::Return(EINVAL)
    } else {
        Action::InitfsRead { path_ptr, path_len, buf_ptr, buf_len }
    }
}

/// A lookup of a thread by name: EINVAL for a null pointer or a name that is
/// empty or longer than `MAX_NAME_LEN`.
pub fn thread_id_by_name(ptr: u64, len: u64) -> (r: Action)
    ensures
        r == thread_by_name_action(ptr, len),
{
    if ptr == 0 || len == 0 || len > MAX_NAME_LEN {
        Action::Return(EINVAL)
    } else {
        Action::ThreadIdByName { ptr, len }
    }
}

/// Text read from a caller's memory: the bytes as a string when they are
/// valid UTF-8, EINVAL otherwise.
pub fn user_text(bytes: &[u8]) -> (r: Result<&str, u64>)
    ensures
        valid_utf8(bytes@) ==> (r matches Ok(s) && s.spec_bytes() == bytes@),
        !valid_utf8(bytes@) ==> r == Err::<&str, u64>(EINVAL),
{
    match str_from_utf8(bytes) {
        Some(s) => Ok(s),
        None => Err(EINVAL),
    }
}

/// The result of a boot-filesystem read into a buffer of `buf_len` bytes:
/// ENOENT when the file is missing, else the number of bytes copied (the
/// smaller of the two lengths), or EINVAL when that number would fall in the
/// reserved range.
pub fn initfs_read_result(file_len: Option<usize>, buf_len: u64) -> (r: u64)
    ensures
        file_len is None ==> r == ENOENT,
        file_len matches Some(n) ==> {
            let copied = if n < buf_len { n as u64 } else { buf_len };
            if copied < ERROR_FLOOR { r == copied } else { r == EINVAL }
        },
{
    match file_len {
        None => ENOENT,
        Some(n) => {
            let copied = if (n as u64) < buf_len { n as u64 } else { buf_len };
            if copied < ERROR_FLOOR { copied } else { EINVAL }
        },
    }
}

/// Ends the calling process (see `Kernel::exit_current`) with `exit_code`.
pub fn exit(kernel: &mut Kernel, exit_code: u64) -> (r: Action)
    requires
        old(kernel).wf(),
    ensures
        final(kernel).wf(),
        r == (Action::Exit { code: exit_code }),
        exit_effect(old(kernel), final(kernel)),
{
    let _ = kernel.exit_current();
    Action::Exit { code: exit_code }
}

/// The process identifier of the current thread, or 0 when none is current.
pub fn getpid(kernel: &Kernel) -> (r: u64)
    requires
        kernel.wf(),
    ensures
        kernel.spec_current() is None ==> r == 0,
        kernel.spec_current() matches Some(t) ==> exists|i: int| 0 <= i < kernel.spec_threads().len()
            && (#[trigger] kernel.spec_threads()[i]).spec_id() == t
            && r == kernel.spec_threads()[i].spec_process_id().value(),
{
    match kernel.current_thread_id() {
        Some(tid) => match kernel.find_thread(tid) {
            Some(i) => kernel.threads[i].process_id().as_u64(),
            None => 0,
        },
        None => 0,
    }
}

/// The identifier of the current thread, or 0 when none is current; never
/// a reserved error value.
pub fn gettid(kernel: &Kernel) -> (r: u64)
    requires
        kernel.wf(),
    ensures
        r == current_id_value(kernel),
        r < ERROR_FLOOR,
{
    proof {
        if let Some(t) = kernel.spec_current() {
            let i = choose|i: int| 0 <= i < kernel.spec_threads().len() && (#[trigger] kernel.spec_threads()[i]).spec_id() == t;
            assert(kernel.threads@[i].spec_id().value() < ERROR_FLOOR);
        }
    }
    match kernel.current_thread_id() {
        Some(tid) => tid.as_u64(),
        None => 0,
    }
}

/// How many times a sleep of `milliseconds` yields: one per ten
/// milliseconds, at least `SLEEP_MIN_YIELDS` and at most `SLEEP_MAX_YIELDS`.
/// This bounds a yield loop; it is no deadline.
pub fn sleep_yields(milliseconds: u64) -> (r: u64)
    ensures
        r == if milliseconds / 10 < SLEEP_MIN_YIELDS {
            SLEEP_MIN_YIELDS
        } else if milliseconds / 10 > SLEEP_MAX_YIELDS {
            SLEEP_MAX_YIELDS
        } else {
            milliseconds / 10
        },
{
    let n = milliseconds / 10;
    if n < SLEEP_MIN_YIELDS {
        SLEEP_MIN_YIELDS
    } else if n > SLEEP_MAX_YIELDS {
        SLEEP_MAX_YIELDS
    } else {
        n
    }
}

/// Forking a process: not implemented.
pub fn fork() -> (r: u64)
    ensures
        r == ENOSYS,
{
    ENOSYS
}

/// Waiting for a child process: not implemented.
pub fn wait(pid: u64, status_ptr: u64) -> (r: u64)
    ensures
        r == ENOSYS,
{
    ENOSYS
}

} // verus!
