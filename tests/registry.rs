use kernel_core::error::{KernelError, ProcessError};
use kernel_core::kernel::Kernel;
use kernel_core::task::{
    Context, IdCounter, PrivilegeLevel, Process, ProcessId, ProcessState, Thread, ThreadId,
    ThreadState, INITIAL_RFLAGS, MAX_PROCESSES, MAX_THREADS,
};
use kernel_core::elf::LoadedElf;

fn kernel_with_process() -> (Kernel, ProcessId) {
    let mut k = Kernel::new();
    let pid = k.create_process("init", PrivilegeLevel::Core, None, 0).unwrap();
    (k, pid)
}

#[test]
fn process_ids_strictly_increase() {
    let mut k = Kernel::new();
    let mut last = 0u64;
    for _ in 0..100 {
        let id = k.new_process_id().unwrap().as_u64();
        assert!(id > last);
        last = id;
    }
    assert_eq!(last, 100);
}

#[test]
fn thread_ids_strictly_increase() {
    let mut k = Kernel::new();
    let a = k.new_thread_id().unwrap().as_u64();
    let b = k.new_thread_id().unwrap().as_u64();
    let c = k.new_thread_id().unwrap().as_u64();
    assert_eq!((a, b, c), (1, 2, 3));
}

#[test]
fn counter_hands_out_distinct_ids() {
    let mut ids = IdCounter::new();
    let p = ProcessId::new(&mut ids);
    let t = ThreadId::new(&mut ids);
    assert_eq!(p.as_u64(), 1);
    assert_eq!(t.as_u64(), 2);
    assert!(ids.can_issue());
}

#[test]
fn process_new_sets_fields() {
    let mut ids = IdCounter::new();
    let mut p = Process::new(&mut ids, "svc", PrivilegeLevel::Service, None, 3);
    assert_eq!(p.id().as_u64(), 1);
    assert_eq!(p.name(), "svc");
    assert_eq!(p.state(), ProcessState::Running);
    assert_eq!(p.privilege(), PrivilegeLevel::Service);
    assert_eq!(p.parent_id(), None);
    assert_eq!(p.priority(), 3);
    assert_eq!(p.page_table(), None);
    p.set_page_table(0x1000);
    p.set_state(ProcessState::Zombie);
    assert_eq!(p.page_table(), Some(0x1000));
    assert_eq!(p.state(), ProcessState::Zombie);
}

#[test]
fn thread_new_initializes_context() {
    let mut ids = IdCounter::new();
    let pid = ProcessId::new(&mut ids);
    let mut tids = IdCounter::new();
    let mut t = Thread::new(&mut tids, pid, "worker", 0x4000, 0x10000, 0x2000);
    assert_eq!(t.id().as_u64(), 1);
    assert_eq!(t.process_id(), pid);
    assert_eq!(t.name(), "worker");
    assert_eq!(t.state(), ThreadState::Ready);
    let c = *t.context();
    assert_eq!(c.rsp, 0x12000);
    assert_eq!(c.rbp, 0x12000);
    assert_eq!(c.rip, 0x4000);
    assert_eq!(c.rflags, 0x202);
    assert_eq!(INITIAL_RFLAGS, 0x202);
    assert_eq!(t.launch(), None);
    t.context_mut().rbx = 7;
    t.set_state(ThreadState::Blocked);
    assert_eq!(t.context().rbx, 7);
    assert_eq!(t.state(), ThreadState::Blocked);
}

#[test]
fn context_new_is_zero() {
    let c = Context::new();
    assert_eq!(
        (c.rsp, c.rbp, c.rbx, c.r12, c.r13, c.r14, c.r15, c.rip, c.rflags),
        (0, 0, 0, 0, 0, 0, 0, 0, 0)
    );
}

#[test]
fn thread_table_refuses_one_past_capacity() {
    let (mut k, pid) = kernel_with_process();
    for i in 0..MAX_THREADS {
        let r = k.create_thread(pid, "t", 0x1000, 0x10_0000 + (i as u64) * 0x1000, 0x1000);
        assert!(r.is_ok());
    }
    assert_eq!(k.thread_count(), MAX_THREADS);
    let r = k.create_thread(pid, "t", 0x1000, 0x20_0000, 0x1000);
    assert_eq!(r, Err(KernelError::Process(ProcessError::MaxThreadsReached)));
    assert_eq!(k.thread_count(), MAX_THREADS);
}

#[test]
fn process_table_refuses_one_past_capacity() {
    let mut k = Kernel::new();
    for _ in 0..MAX_PROCESSES {
        assert!(k.create_process("p", PrivilegeLevel::User, None, 0).is_ok());
    }
    let r = k.create_process("p", PrivilegeLevel::User, None, 0);
    assert_eq!(r, Err(KernelError::Process(ProcessError::MaxProcessesReached)));
    assert_eq!(k.process_count(), MAX_PROCESSES);
}

#[test]
fn thread_of_unknown_process_is_refused() {
    let mut k = Kernel::new();
    let stray = k.new_process_id().unwrap();
    let r = k.create_thread(stray, "t", 0, 0x1000, 0x1000);
    assert_eq!(r, Err(KernelError::Process(ProcessError::ProcessNotFound)));
    assert_eq!(k.thread_count(), 0);
}

#[test]
fn wrapping_kernel_stack_is_refused() {
    let (mut k, pid) = kernel_with_process();
    let r = k.create_thread(pid, "t", 0, u64::MAX - 10, 0x1000);
    assert_eq!(r, Err(KernelError::InvalidParam));
}

#[test]
fn spawn_registers_process_and_launch() {
    let mut k = Kernel::new();
    let loaded = LoadedElf { entry: 0x1000, stack_top: 0x7000, stack_bottom: 0x5000 };
    let (pid, tid) = k.spawn("svc", PrivilegeLevel::Service, 1, &loaded, 0xAAAA, 0x9000, 0x4000).unwrap();
    let p = k.process(pid).unwrap();
    assert_eq!(p.privilege(), PrivilegeLevel::Service);
    assert_eq!(p.priority(), 1);
    let t = k.thread(tid).unwrap();
    assert_eq!(t.process_id(), pid);
    assert_eq!(t.context().rip, 0xAAAA);
    assert_eq!(t.context().rsp, 0xD000);
    let launch = k.launch_of(tid).unwrap();
    assert_eq!(launch.entry, 0x1000);
    assert_eq!(launch.stack_top, 0x7000);
    assert_eq!(launch.process, pid);
}

#[test]
fn spawn_failure_leaves_nothing_registered() {
    let (mut k, pid) = kernel_with_process();
    for i in 0..MAX_THREADS {
        k.create_thread(pid, "t", 0, 0x1000 * (i as u64 + 1), 0x1000).unwrap();
    }
    let loaded = LoadedElf { entry: 0x1000, stack_top: 0x7000, stack_bottom: 0x5000 };
    let r = k.spawn("svc", PrivilegeLevel::Service, 1, &loaded, 0, 0x9000, 0x4000);
    assert_eq!(r, Err(KernelError::Process(ProcessError::MaxProcessesReached)));
    assert_eq!(k.process_count(), 1);
}

#[test]
fn schedule_round_robin() {
    let (mut k, pid) = kernel_with_process();
    let a = k.create_thread(pid, "a", 0, 0x1000, 0x1000).unwrap();
    let b = k.create_thread(pid, "b", 0, 0x2000, 0x1000).unwrap();
    let c = k.create_thread(pid, "c", 0, 0x3000, 0x1000).unwrap();
    assert_eq!(k.schedule(), Some(a));
    assert_eq!(k.current_thread_id(), Some(a));
    assert_eq!(k.thread(a).unwrap().state(), ThreadState::Running);
    assert_eq!(k.schedule(), Some(b));
    assert_eq!(k.thread(a).unwrap().state(), ThreadState::Ready);
    assert_eq!(k.schedule(), Some(c));
    assert_eq!(k.schedule(), Some(a));
}

#[test]
fn schedule_with_no_ready_thread_changes_nothing() {
    let mut k = Kernel::new();
    assert_eq!(k.schedule(), None);
    assert_eq!(k.current_thread_id(), None);
}

#[test]
fn save_context_stores_into_current_thread() {
    let (mut k, pid) = kernel_with_process();
    let a = k.create_thread(pid, "a", 0, 0x1000, 0x1000).unwrap();
    assert!(!k.save_context(Context::new()));
    assert!(k.set_current(a));
    let mut ctx = Context::new();
    ctx.rip = 0x1234;
    assert!(k.save_context(ctx));
    assert_eq!(k.context_of(a).unwrap().rip, 0x1234);
}

#[test]
fn exit_tears_down_process_and_threads() {
    let mut k = Kernel::new();
    let p1 = k.create_process("one", PrivilegeLevel::User, None, 0).unwrap();
    let p2 = k.create_process("two", PrivilegeLevel::User, None, 0).unwrap();
    let a = k.create_thread(p1, "a", 0, 0x1000, 0x1000).unwrap();
    let b = k.create_thread(p2, "b", 0, 0x2000, 0x1000).unwrap();
    let c = k.create_thread(p1, "c", 0, 0x3000, 0x1000).unwrap();
    assert!(k.set_current(c));
    assert_eq!(k.exit_current(), Some(p1));
    assert_eq!(k.current_thread_id(), None);
    assert!(k.process(p1).is_none());
    assert!(k.thread(a).is_none());
    assert!(k.thread(c).is_none());
    assert!(k.thread(b).is_some());
    assert!(k.has_process(p2));
    assert_eq!(k.exit_current(), None);
}

#[test]
fn set_current_requires_registered_thread() {
    let mut k = Kernel::new();
    let t = k.new_thread_id().unwrap();
    assert!(!k.set_current(t));
    assert_eq!(k.current_thread_id(), None);
}

#[test]
fn thread_lookup_by_name() {
    let (mut k, pid) = kernel_with_process();
    let a = k.create_thread(pid, "keyboard", 0, 0x1000, 0x1000).unwrap();
    assert_eq!(k.thread_id_by_name(b"keyboard"), a.as_u64());
    assert_eq!(k.thread_id_by_name(b"mouse"), kernel_core::abi::ENOENT);
}

#[test]
fn ticks_stop_below_error_range() {
    let mut k = Kernel::new();
    k.tick();
    k.tick();
    assert_eq!(k.ticks(), 2);
}

#[test]
fn keyboard_queue_is_fifo_and_bounded() {
    let mut k = Kernel::new();
    assert_eq!(k.read_key(), kernel_core::abi::ENODATA);
    assert!(k.push_key(b'a'));
    assert!(k.push_key(b'b'));
    assert_eq!(k.read_key(), b'a' as u64);
    assert_eq!(k.read_key(), b'b' as u64);
    for _ in 0..kernel_core::kernel::KEYBOARD_CAP {
        assert!(k.push_key(1));
    }
    assert!(!k.push_key(2));
}

#[test]
fn set_current_switches_running_thread() {
    let (mut k, pid) = kernel_with_process();
    let a = k.create_thread(pid, "a", 0, 0x1000, 0x1000).unwrap();
    let b = k.create_thread(pid, "b", 0, 0x2000, 0x1000).unwrap();
    assert!(k.set_current(a));
    assert_eq!(k.thread(a).unwrap().state(), ThreadState::Running);
    assert!(k.set_current(b));
    assert_eq!(k.thread(a).unwrap().state(), ThreadState::Ready);
    assert_eq!(k.thread(b).unwrap().state(), ThreadState::Running);
    assert_eq!(k.current_thread_id(), Some(b));
}

#[test]
fn terminated_thread_stays_terminated() {
    let mut ids = IdCounter::new();
    let pid = ProcessId::new(&mut ids);
    let mut t = Thread::new(&mut IdCounter::new(), pid, "t", 0, 0x1000, 0x1000);
    t.set_state(ThreadState::Terminated);
    t.set_state(ThreadState::Ready);
    assert_eq!(t.state(), ThreadState::Terminated);
}

#[test]
fn thread_ids_stay_below_error_range() {
    let mut k = Kernel::new();
    let pid = k.create_process("p", PrivilegeLevel::User, None, 0).unwrap();
    let t = k.create_thread(pid, "t", 0, 0x1000, 0x1000).unwrap();
    assert!(t.as_u64() < kernel_core::abi::ERROR_FLOOR);
    assert!(pid.as_u64() < kernel_core::abi::ERROR_FLOOR);
}
