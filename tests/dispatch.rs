use kernel_core::abi::{
    SyscallNumber, EAGAIN, EINVAL, ENODATA, ENOENT, ENOSYS, SUCCESS, SYS_BRK, SYS_EXIT, SYS_READ,
};
use kernel_core::kernel::Kernel;
use kernel_core::syscall::{
    dispatch, exit, fork, getpid, gettid, initfs_read_result, linux_read, linux_write, sleep_yields,
    user_text, wait, Action,
};
use kernel_core::task::{PrivilegeLevel, ThreadId};

fn kernel_with_two_threads() -> (Kernel, ThreadId, ThreadId) {
    let mut k = Kernel::new();
    let pid = k.create_process("p", PrivilegeLevel::User, None, 0).unwrap();
    let a = k.create_thread(pid, "alpha", 0, 0x1000, 0x1000).unwrap();
    let b = k.create_thread(pid, "beta", 0, 0x2000, 0x1000).unwrap();
    (k, a, b)
}

#[test]
fn unknown_codes_return_enosys_without_effect() {
    let (mut k, a, b) = kernel_with_two_threads();
    k.set_current(a);
    for num in [11u64, 13, 59, 61, 1000, u64::MAX] {
        assert_eq!(dispatch(&mut k, num, 1, 2, 3, 4, 5), Action::Return(ENOSYS));
    }
    assert_eq!(k.thread_count(), 2);
    assert_eq!(k.current_thread_id(), Some(a));
    assert_eq!(dispatch(&mut k, SyscallNumber::IpcRecv.code(), 0, 0, 0, 0, 0), Action::Return(EAGAIN));
    let _ = b;
}

#[test]
fn syscall_codes_round_trip() {
    assert_eq!(SyscallNumber::Yield.code(), 1);
    assert_eq!(SyscallNumber::GetTicks.code(), 2);
    assert_eq!(SyscallNumber::ConsoleWrite.code(), 5);
    assert_eq!(SyscallNumber::Exit.code(), 7);
    assert_eq!(SyscallNumber::KeyboardRead.code(), 8);
    assert_eq!(SyscallNumber::GetThreadIdByName.code(), 10);
    assert_eq!(SyscallNumber::from_code(3), Some(SyscallNumber::IpcSend));
    assert_eq!(SyscallNumber::from_code(0), None);
    assert_eq!(ENODATA, u64::MAX - 4);
}

#[test]
fn dispatch_ipc_round_trip() {
    let (mut k, a, b) = kernel_with_two_threads();
    k.set_current(a);
    let send = SyscallNumber::IpcSend.code();
    let recv = SyscallNumber::IpcRecv.code();
    assert_eq!(dispatch(&mut k, send, b.as_u64(), 42, 0, 0, 0), Action::Return(SUCCESS));
    k.set_current(b);
    assert_eq!(
        dispatch(&mut k, recv, 0x8000, 0, 0, 0, 0),
        Action::StoreSender { addr: 0x8000, sender: a.as_u64(), value: 42 }
    );
    assert_eq!(dispatch(&mut k, send, a.as_u64(), 7, 0, 0, 0), Action::Return(SUCCESS));
    k.set_current(a);
    assert_eq!(dispatch(&mut k, recv, 0, 0, 0, 0, 0), Action::Return(7));
}

#[test]
fn dispatch_ipc_without_current_thread_fails() {
    let (mut k, _a, b) = kernel_with_two_threads();
    let send = SyscallNumber::IpcSend.code();
    let recv = SyscallNumber::IpcRecv.code();
    assert_eq!(dispatch(&mut k, send, b.as_u64(), 1, 0, 0, 0), Action::Return(EINVAL));
    assert_eq!(dispatch(&mut k, recv, 0, 0, 0, 0, 0), Action::Return(EINVAL));
    k.set_current(b);
    assert_eq!(dispatch(&mut k, recv, 0, 0, 0, 0, 0), Action::Return(EAGAIN));
}

#[test]
fn dispatch_simple_operations() {
    let (mut k, a, _b) = kernel_with_two_threads();
    assert_eq!(dispatch(&mut k, 1, 0, 0, 0, 0, 0), Action::Yield);
    k.tick();
    assert_eq!(dispatch(&mut k, 2, 0, 0, 0, 0, 0), Action::Return(1));
    assert_eq!(dispatch(&mut k, 9, 0, 0, 0, 0, 0), Action::Return(0));
    k.set_current(a);
    assert_eq!(dispatch(&mut k, 9, 0, 0, 0, 0, 0), Action::Return(a.as_u64()));
    assert_eq!(dispatch(&mut k, 8, 0, 0, 0, 0, 0), Action::Return(ENODATA));
    k.push_key(b'x');
    assert_eq!(dispatch(&mut k, 8, 0, 0, 0, 0, 0), Action::Return(b'x' as u64));
}

#[test]
fn dispatch_console_and_files() {
    let mut k = Kernel::new();
    assert_eq!(dispatch(&mut k, 5, 0, 4, 0, 0, 0), Action::Return(EINVAL));
    assert_eq!(dispatch(&mut k, 5, 0x1000, 0, 0, 0, 0), Action::Return(0));
    assert_eq!(dispatch(&mut k, 5, 0x1000, 4, 0, 0, 0), Action::ConsoleWrite { ptr: 0x1000, len: 4 });
    assert_eq!(dispatch(&mut k, 6, 0x1000, 0, 0x2000, 8, 0), Action::Return(EINVAL));
    assert_eq!(dispatch(&mut k, 6, 0x1000, 257, 0x2000, 8, 0), Action::Return(EINVAL));
    assert_eq!(
        dispatch(&mut k, 6, 0x1000, 5, 0x2000, 8, 0),
        Action::InitfsRead { path_ptr: 0x1000, path_len: 5, buf_ptr: 0x2000, buf_len: 8 }
    );
    assert_eq!(dispatch(&mut k, 10, 0x1000, 3, 0, 0, 0), Action::ThreadIdByName { ptr: 0x1000, len: 3 });
    assert_eq!(dispatch(&mut k, 10, 0, 3, 0, 0, 0), Action::Return(EINVAL));
}

#[test]
fn dispatch_compatibility_table() {
    let (mut k, a, _b) = kernel_with_two_threads();
    assert_eq!(dispatch(&mut k, SYS_READ, 0, 0, 0, 0, 0), Action::Return(ENOSYS));
    assert_eq!(dispatch(&mut k, SYS_BRK, 0, 0, 0, 0, 0), Action::Return(ENOSYS));
    k.set_current(a);
    assert_eq!(dispatch(&mut k, SYS_EXIT, 3, 0, 0, 0, 0), Action::Exit { code: 3 });
    assert_eq!(k.thread_count(), 0);
    assert_eq!(k.process_count(), 0);
}

#[test]
fn dispatch_exit_removes_caller() {
    let (mut k, a, _b) = kernel_with_two_threads();
    k.set_current(a);
    assert_eq!(dispatch(&mut k, 7, 9, 0, 0, 0, 0), Action::Exit { code: 9 });
    assert_eq!(k.current_thread_id(), None);
    assert_eq!(k.thread_count(), 0);
}

#[test]
fn linux_write_checks_descriptor() {
    assert_eq!(linux_write(1, 0, 4), Action::Return(EINVAL));
    assert_eq!(linux_write(1, 0x1000, 0), Action::Return(0));
    assert_eq!(linux_write(3, 0x1000, 4), Action::Return(EINVAL));
    assert_eq!(linux_write(2, 0x1000, 4), Action::ConsoleWrite { ptr: 0x1000, len: 4 });
    assert_eq!(linux_read(0, 0x1000, 4), ENOSYS);
}

#[test]
fn process_syscalls() {
    let (mut k, a, _b) = kernel_with_two_threads();
    assert_eq!(getpid(&k), 0);
    assert_eq!(gettid(&k), 0);
    k.set_current(a);
    assert_eq!(gettid(&k), a.as_u64());
    assert_eq!(getpid(&k), k.thread(a).unwrap().process_id().as_u64());
    assert_eq!(fork(), ENOSYS);
    assert_eq!(wait(1, 0), ENOSYS);
    assert_eq!(exit(&mut k, 0), Action::Exit { code: 0 });
    assert_eq!(k.thread_count(), 0);
}

#[test]
fn sleep_yield_bounds() {
    assert_eq!(sleep_yields(0), 1);
    assert_eq!(sleep_yields(9), 1);
    assert_eq!(sleep_yields(250), 25);
    assert_eq!(sleep_yields(5000), 100);
}

#[test]
fn user_text_checks_utf8() {
    assert_eq!(user_text(b"hello"), Ok("hello"));
    assert_eq!(user_text(&[0xFF, 0xFE]), Err(EINVAL));
}

#[test]
fn initfs_read_results() {
    assert_eq!(initfs_read_result(None, 10), ENOENT);
    assert_eq!(initfs_read_result(Some(4), 10), 4);
    assert_eq!(initfs_read_result(Some(40), 10), 10);
}
