//! The kernel context: process and thread tables, the current thread,
//! identifier counters, mailboxes, the tick counter and the keyboard queue.
use vstd::prelude::*;
use crate::abi::{ENODATA, ENOENT, ERROR_FLOOR};
use crate::elf::LoadedElf;
use crate::error::{KernelError, ProcessError};
use crate::ipc::Mailboxes;
use crate::task::{
    Context, IdCounter, Launch, ProcessState, PrivilegeLevel, Process, ProcessId, Thread, ThreadId, ThreadState, MAX_PROCESSES,
    MAX_THREADS,
};

verus! {

/// Number of key codes that the keyboard queue holds.
pub const KEYBOARD_CAP: usize = 128;

/// Index of the thread with identifier `tid` in `threads`, if any.
pub open spec fn thread_index(threads: Seq<Thread>, tid: ThreadId) -> Option<int> {
    if exists|i: int| 0 <= i < threads.len() && (#[trigger] threads[i]).spec_id() == tid {
        Some(choose|i: int| 0 <= i < threads.len() && (#[trigger] threads[i]).spec_id() == tid)
    } else {
        None
    }
}

/// Whether a process with identifier `pid` is in `processes`.
pub open spec fn has_pid(processes: Seq<Process>, pid: ProcessId) -> bool {
    exists|i: int| 0 <= i < processes.len() && (#[trigger] processes[i]).spec_id() == pid
}

/// Whether a thread with identifier `tid` is in `threads`.
pub open spec fn has_tid(threads: Seq<Thread>, tid: ThreadId) -> bool {
    exists|i: int| 0 <= i < threads.len() && (#[trigger] threads[i]).spec_id() == tid
}

/// The single owner of the kernel's mutable state.
pub struct Kernel {
    pub(crate) processes: Vec<Process>,
    pub(crate) threads: Vec<Thread>,
    pub(crate) current: Option<ThreadId>,
    pub(crate) mailboxes: Mailboxes,
    pub(crate) process_ids: IdCounter,
    pub(crate) thread_ids: IdCounter,
    pub(crate) ticks: u64,
    pub(crate) keys: Vec<u8>,
}

impl Kernel {
    pub open(crate) spec fn spec_processes(&self) -> Seq<Process> {
        self.processes@
    }

    pub open(crate) spec fn spec_threads(&self) -> Seq<Thread> {
        self.threads@
    }

    pub open(crate) spec fn spec_current(&self) -> Option<ThreadId> {
        self.current
    }

    pub open(crate) spec fn spec_mailboxes(&self) -> Seq<Seq<crate::ipc::Message>> {
        self.mailboxes@
    }

    pub open(crate) spec fn spec_ticks(&self) -> u64 {
        self.ticks
    }

    pub open(crate) spec fn spec_keys(&self) -> Seq<u8> {
        self.keys@
    }

    pub open(crate) spec fn spec_next_process_id(&self) -> u64 {
        self.process_ids.next_value()
    }

    pub open(crate) spec fn spec_next_thread_id(&self) -> u64 {
        self.thread_ids.next_value()
    }

    pub open(crate) spec fn spec_issued_process_ids(&self) -> Seq<u64> {
        self.process_ids.issued()
    }

    pub open(crate) spec fn spec_issued_thread_ids(&self) -> Seq<u64> {
        self.thread_ids.issued()
    }

    /// Same processes, threads and current thread.
    pub open(crate) spec fn same_tables(&self, o: &Kernel) -> bool {
        &&& self.processes@ == o.processes@
        &&& self.threads@ == o.threads@
        &&& self.current == o.current
    }

    /// Same mailboxes, ticks and keyboard queue.
    pub open(crate) spec fn same_queues(&self, o: &Kernel) -> bool {
        &&& self.mailboxes@ == o.mailboxes@
        &&& self.ticks == o.ticks
        &&& self.keys@ == o.keys@
    }

    /// Same identifier counters.
    pub open(crate) spec fn same_counters(&self, o: &Kernel) -> bool {
        &&& self.process_ids.next_value() == o.process_ids.next_value()
        &&& self.process_ids.issued() == o.process_ids.issued()
        &&& self.thread_ids.next_value() == o.thread_ids.next_value()
        &&& self.thread_ids.issued() == o.thread_ids.issued()
    }

    /// Observably the same kernel.
    pub open(crate) spec fn same(&self, o: &Kernel) -> bool {
        self.same_tables(o) && self.same_queues(o) && self.same_counters(o)
    }

    /// The kernel's invariant: bounded tables with unique identifiers, all
    /// drawn from the counters; every thread belongs to a registered
    /// process; the current thread is registered. Every identifier lies
    /// below the reserved error range. Registered processes are
    /// running; registered threads are ready, except the current one, which
    /// is running.
    pub open(crate) spec fn wf(&self) -> bool {
        &&& self.processes@.len() <= MAX_PROCESSES
        &&& self.threads@.len() <= MAX_THREADS
        &&& self.mailboxes.wf()
        &&& self.process_ids.wf()
        &&& self.thread_ids.wf()
        &&& self.ticks < ERROR_FLOOR
        &&& self.keys@.len() <= KEYBOARD_CAP
        &&& forall|i: int| 0 <= i < self.processes@.len()
            ==> (#[trigger] self.processes@[i]).spec_id().value() < self.process_ids.next_value()
        &&& forall|i: int| 0 <= i < self.threads@.len()
            ==> (#[trigger] self.threads@[i]).spec_id().value() < self.thread_ids.next_value()
        &&& forall|i: int, j: int| 0 <= i < j < self.processes@.len()
            ==> (#[trigger] self.processes@[i]).spec_id() != (#[trigger] self.processes@[j]).spec_id()
        &&& forall|i: int, j: int| 0 <= i < j < self.threads@.len()
            ==> (#[trigger] self.threads@[i]).spec_id() != (#[trigger] self.threads@[j]).spec_id()
        &&& forall|i: int| 0 <= i < self.threads@.len()
            ==> has_pid(self.processes@, (#[trigger] self.threads@[i]).spec_process_id())
        &&& self.current matches Some(t) ==> has_tid(self.threads@, t)
        &&& forall|i: int| 0 <= i < self.processes@.len()
            ==> (#[trigger] self.processes@[i]).spec_id().value() < ERROR_FLOOR
        &&& forall|i: int| 0 <= i < self.threads@.len()
            ==> (#[trigger] self.threads@[i]).spec_id().value() < ERROR_FLOOR
        &&& forall|i: int| 0 <= i < self.processes@.len()
            ==> (#[trigger] self.processes@[i]).spec_state() == ProcessState::Running
        &&& forall|i: int| 0 <= i < self.threads@.len()
            ==> (#[trigger] self.threads@[i]).spec_state() == ThreadState::Ready
                || self.threads@[i].spec_state() == ThreadState::Running
        &&& forall|i: int| 0 <= i < self.threads@.len()
            ==> ((#[trigger] self.threads@[i]).spec_state() == ThreadState::Running
                <==> self.current == Some(self.threads@[i].spec_id()))
    }

    /// An empty kernel: no processes, no threads, no current thread, empty
    /// mailboxes and keyboard queue, zero ticks.
    pub fn new() -> (r: Kernel)
        ensures
            r.wf(),
            r.spec_processes() == Seq::<Process>::empty(),
            r.spec_threads() == Seq::<Thread>::empty(),
            r.spec_current() is None,
            r.spec_ticks() == 0,
            r.spec_keys() == Seq::<u8>::empty(),
            r.spec_next_process_id() == 1,
            r.spec_next_thread_id() == 1,
            r.spec_mailboxes() == Seq::new(MAX_THREADS as nat, |i: int| Seq::<crate::ipc::Message>::empty()),
    {
        Kernel {
            processes: Vec::new(),
            threads: Vec::new(),
            current: None,
            mailboxes: Mailboxes::new(),
            process_ids: IdCounter::new(),
            thread_ids: IdCounter::new(),
            ticks: 0,
            keys: Vec::new(),
        }
    }

    /// A fresh process identifier, greater than every one handed out before;
    /// `None` once the counter is exhausted.
    pub fn new_process_id(&mut self) -> (r: Option<ProcessId>)
        requires
            old(self).wf(),
        ensures
            final(self).wf(),
            old(self).spec_next_process_id() < ERROR_FLOOR ==> r is Some && r.unwrap().value() == old(self).spec_next_process_id()
                && final(self).same_tables(old(self)) && final(self).same_queues(old(self))
                && final(self).spec_next_thread_id() == old(self).spec_next_thread_id()
                && final(self).spec_issued_thread_ids() == old(self).spec_issued_thread_ids()
                && final(self).spec_issued_process_ids() == old(self).spec_issued_process_ids().push(old(self).spec_next_process_id())
                && final(self).spec_next_process_id() == old(self).spec_next_process_id() + 1,
            old(self).spec_next_process_id() >= ERROR_FLOOR ==> r is None && final(self).same(old(self)),
    {
        if !self.process_ids.can_issue() {
            return None;
        }
        Some(ProcessId::new(&mut self.process_ids))
    }

    /// A fresh thread identifier, greater than every one handed out before;
    /// `None` once the counter is exhausted.
    pub fn new_thread_id(&mut self) -> (r: Option<ThreadId>)
        requires
            old(self).wf(),
        ensures
            final(self).wf(),
            old(self).spec_next_thread_id() < ERROR_FLOOR ==> r is Some && r.unwrap().value() == old(self).spec_next_thread_id()
                && final(self).same_tables(old(self)) && final(self).same_queues(old(self))
                && final(self).spec_next_process_id() == old(self).spec_next_process_id()
                && final(self).spec_issued_process_ids() == old(self).spec_issued_process_ids()
                && final(self).spec_issued_thread_ids() == old(self).spec_issued_thread_ids().push(old(self).spec_next_thread_id())
                && final(self).spec_next_thread_id() == old(self).spec_next_thread_id() + 1,
            old(self).spec_next_thread_id() >= ERROR_FLOOR ==> r is None && final(self).same(old(self)),
    {
        if !self.thread_ids.can_issue() {
            return None;
        }
        Some(ThreadId::new(&mut self.thread_ids))
    }

    /// Whether a process with identifier `pid` is registered.
    pub fn has_process(&self, pid: ProcessId) -> (r: bool)
        ensures
            r == has_pid(self.spec_processes(), pid),
    {
        let mut i: usize = 0;
        while i < self.processes.len()
            invariant
                i <= self.processes@.len(),
                forall|k: int| 0 <= k < i ==> (#[trigger] self.processes@[k]).spec_id() != pid,
            decreases self.processes@.len() - i,
        {
            if self.processes[i].id == pid {
                return true;
            }
            i = i + 1;
        }
        false
    }

    /// The position of thread `tid` in the thread table, if registered.
    pub fn find_thread(&self, tid: ThreadId) -> (r: Option<usize>)
        ensures
            r is None <==> !has_tid(self.spec_threads(), tid),
            r matches Some(i) ==> i < self.spec_threads().len() && self.spec_threads()[i as int].spec_id() == tid,
    {
        let mut i: usize = 0;
        while i < self.threads.len()
            invariant
                i <= self.threads@.len(),
                forall|k: int| 0 <= k < i ==> (#[trigger] self.threads@[k]).spec_id() != tid,
            decreases self.threads@.len() - i,
        {
            if self.threads[i].id == tid {
                return Some(i);
            }
            i = i + 1;
        }
        None
    }

    /// Registers `process`. Returns its identifier, or `None` (and changes
    /// nothing) when the process table is full.
    pub fn add_process(&mut self, process: Process) -> (r: Option<ProcessId>)
        requires
            old(self).wf(),
            process.spec_id().value() < old(self).spec_next_process_id(),
            !has_pid(old(self).spec_processes(), process.spec_id()),
            process.spec_state() == ProcessState::Running,
        ensures
            final(self).wf(),
            old(self).spec_processes().len() >= MAX_PROCESSES ==> r is None && final(self).same(old(self)),
            old(self).spec_processes().len() < MAX_PROCESSES ==> r == Some(process.spec_id())
                && final(self).same_queues(old(self)) && final(self).same_counters(old(self))
                && final(self).spec_threads() == old(self).spec_threads()
                && final(self).spec_current() == old(self).spec_current()
                && final(self).spec_processes() == old(self).spec_processes().push(process),
    {
        if self.processes.len() >= MAX_PROCESSES {
            return None;
        }
        let id = process.id;
        let ghost old_procs = self.processes@;
        self.processes.push(process);
        assert forall|i: int| 0 <= i < self.threads@.len()
            implies has_pid(self.processes@, (#[trigger] self.threads@[i]).spec_process_id()) by {
            let pid = self.threads@[i].spec_process_id();
            let k = choose|k: int| 0 <= k < old_procs.len() && (#[trigger] old_procs[k]).spec_id() == pid;
            assert(self.processes@[k] == old_procs[k]);
        }
        Some(id)
    }

    /// Registers `thread`, whose process must be registered. Returns its
    /// identifier, or `None` (and changes nothing) when the thread table is
    /// full.
    pub fn add_thread(&mut self, thread: Thread) -> (r: Option<ThreadId>)
        requires
            old(self).wf(),
            thread.spec_id().value() < old(self).spec_next_thread_id(),
            !has_tid(old(self).spec_threads(), thread.spec_id()),
            has_pid(old(self).spec_processes(), thread.spec_process_id()),
            thread.spec_state() == ThreadState::Ready,
        ensures
            final(self).wf(),
            old(self).spec_threads().len() >= MAX_THREADS ==> r is None && final(self).same(old(self)),
            old(self).spec_threads().len() < MAX_THREADS ==> r == Some(thread.spec_id())
                && final(self).same_queues(old(self)) && final(self).same_counters(old(self))
                && final(self).spec_processes() == old(self).spec_processes()
                && final(self).spec_current() == old(self).spec_current()
                && final(self).spec_threads() == old(self).spec_threads().push(thread),
    {
        if self.threads.len() >= MAX_THREADS {
            return None;
        }
        let id = thread.id;
        let ghost old_threads = self.threads@;
        self.threads.push(thread);
        proof {
            if let Some(t) = self.current {
                let k = choose|k: int| 0 <= k < old_threads.len() && (#[trigger] old_threads[k]).spec_id() == t;
                assert(self.threads@[k] == old_threads[k]);
            }
        }
        Some(id)
    }
}

/// Why `spawn` on kernel `k` with the given kernel stack fails, if it does.
pub open spec fn spawn_error(k: &Kernel, kernel_stack: u64, kernel_stack_size: usize) -> Option<KernelError> {
    if kernel_stack + kernel_stack_size > u64::MAX {
        Some(KernelError::InvalidParam)
    } else if k.spec_processes().len() >= MAX_PROCESSES || k.spec_next_process_id() >= ERROR_FLOOR {
        Some(KernelError::Process(ProcessError::MaxProcessesReached))
    } else if k.spec_threads().len() >= MAX_THREADS || k.spec_next_thread_id() >= ERROR_FLOOR {
        Some(KernelError::Process(ProcessError::MaxProcessesReached))
    } else {
        None
    }
}

/// Where the round-robin search starts: just after the current thread, or
/// at the start of the table.
pub open spec fn round_robin_start(threads: Seq<Thread>, current: Option<ThreadId>) -> int {
    match current {
        Some(t) => match thread_index(threads, t) {
            Some(i) => if i + 1 < threads.len() { i + 1 } else { 0 },
            None => 0,
        },
        None => 0,
    }
}

/// The first ready thread at or after position `k` of the search that
/// starts at `start` and wraps around the table.
pub open spec fn ready_from(threads: Seq<Thread>, start: int, k: nat) -> Option<int>
    decreases threads.len() - k,
{
    if k >= threads.len() {
        None
    } else if threads[(start + k) % (threads.len() as int)].spec_state() == ThreadState::Ready {
        Some((start + k) % (threads.len() as int))
    } else {
        ready_from(threads, start, k + 1)
    }
}

/// The search finds a position inside the table.
proof fn lemma_ready_from_in_range(threads: Seq<Thread>, start: int, k: nat)
    requires
        0 <= start,
    ensures
        ready_from(threads, start, k) matches Some(j) ==> 0 <= j < threads.len(),
    decreases threads.len() - k,
{
    if k < threads.len() {
        let n = threads.len() as int;
        assert(0 <= (start + k) % n < n) by (nonlinear_arith)
            requires
                n > 0,
                start + k >= 0,
        ;
        lemma_ready_from_in_range(threads, start, k + 1);
    }
}

/// The table with the current thread, if running, set back to ready.
pub open spec fn demote_current(threads: Seq<Thread>, current: Option<ThreadId>) -> Seq<Thread> {
    match current {
        Some(t) => match thread_index(threads, t) {
            Some(i) => if threads[i].spec_state() == ThreadState::Running {
                threads.update(i, threads[i].with_state(ThreadState::Ready))
            } else {
                threads
            },
            None => threads,
        },
        None => threads,
    }
}

/// With unique identifiers, `thread_index` names the one position of `tid`.
proof fn lemma_thread_index_unique(threads: Seq<Thread>, tid: ThreadId)
    requires
        forall|i: int, j: int| 0 <= i < j < threads.len()
            ==> (#[trigger] threads[i]).spec_id() != (#[trigger] threads[j]).spec_id(),
    ensures
        forall|i: int| 0 <= i < threads.len() && (#[trigger] threads[i]).spec_id() == tid
            ==> thread_index(threads, tid) == Some(i),
{
    assert forall|i: int| 0 <= i < threads.len() && (#[trigger] threads[i]).spec_id() == tid
        implies thread_index(threads, tid) == Some(i) by {
        let c = choose|c: int| 0 <= c < threads.len() && (#[trigger] threads[c]).spec_id() == tid;
        if c < i {
            assert(threads[c].spec_id() != threads[i].spec_id());
        } else if i < c {
            assert(threads[i].spec_id() != threads[c].spec_id());
        }
    }
}

/// The threads that remain when process `pid` is torn down.
pub open spec fn threads_without(threads: Seq<Thread>, pid: ProcessId) -> Seq<Thread> {
    threads.filter(|t: Thread| t.spec_process_id() != pid)
}

/// The processes that remain when process `pid` is torn down.
pub open spec fn processes_without(processes: Seq<Process>, pid: ProcessId) -> Seq<Process> {
    processes.filter(|p: Process| p.spec_id() != pid)
}

impl Kernel {
    /// The thread bound to the processor, if any.
    pub fn current_thread_id(&self) -> (r: Option<ThreadId>)
        ensures
            r == self.spec_current(),
    {
        self.current
    }

    /// Binds thread `tid` to the processor: it becomes current and running,
    /// and the previous current thread, if running, becomes ready. Returns
    /// false, and changes nothing, when no such thread is registered.
    pub fn set_current(&mut self, tid: ThreadId) -> (r: bool)
        requires
            old(self).wf(),
        ensures
            final(self).wf(),
            r == has_tid(old(self).spec_threads(), tid),
            !r ==> final(self).same(old(self)),
            r ==> final(self).spec_current() == Some(tid) && exists|j: int|
                0 <= j < old(self).spec_threads().len() && (#[trigger] old(self).spec_threads()[j]).spec_id() == tid
                && final(self).spec_threads() == demote_current(old(self).spec_threads(), old(self).spec_current()).update(
                    j, demote_current(old(self).spec_threads(), old(self).spec_current())[j].with_state(ThreadState::Running)),
            final(self).spec_processes() == old(self).spec_processes(),
            final(self).same_queues(old(self)),
            final(self).same_counters(old(self)),
    {
        match self.find_thread(tid) {
            Some(j) => {
                let _ = self.switch_to(j);
                true
            },
            None => false,
        }
    }

    /// Ends the process of the current thread: the process and all of its
    /// threads leave the tables, and no thread is current. Returns the
    /// process's identifier; `None`, with nothing changed, when no thread is
    /// current.
    pub fn exit_current(&mut self) -> (r: Option<ProcessId>)
        requires
            old(self).wf(),
        ensures
            final(self).wf(),
            old(self).spec_current() is None ==> r is None && final(self).same(old(self)),
            old(self).spec_current() is Some ==> r is Some
                && (exists|i: int| 0 <= i < old(self).spec_threads().len()
                    && (#[trigger] old(self).spec_threads()[i]).spec_id() == old(self).spec_current().unwrap()
                    && old(self).spec_threads()[i].spec_process_id() == r.unwrap())
                && final(self).spec_processes() == processes_without(old(self).spec_processes(), r.unwrap())
                && final(self).spec_threads() == threads_without(old(self).spec_threads(), r.unwrap())
                && final(self).spec_current() is None
                && final(self).same_queues(old(self))
                && final(self).same_counters(old(self)),
    {
        let tid = match self.current {
            Some(t) => t,
            None => {
                return None;
            },
        };
        let idx = match self.find_thread(tid) {
            Some(i) => i,
            None => {
                return None;
            },
        };
        let pid = self.threads[idx].process_id;
        let threads = keep_threads_not_of(&self.threads, pid);
        let processes = keep_processes_other_than(&self.processes, pid);
        let ghost old_self = *self;
        self.threads = threads;
        self.processes = processes;
        self.current = None;
        proof {
            assert forall|a: int| 0 <= a < self.threads@.len()
                implies has_pid(self.processes@, (#[trigger] self.threads@[a]).spec_process_id()) by {
                let j = choose|j: int| 0 <= j < old_self.threads@.len() && self.threads@[a] == old_self.threads@[j];
                let q = self.threads@[a].spec_process_id();
                assert(has_pid(old_self.processes@, old_self.threads@[j].spec_process_id()));
                let k = choose|k: int| 0 <= k < old_self.processes@.len() && (#[trigger] old_self.processes@[k]).spec_id() == q;
                assert(old_self.processes@[k].spec_id() != pid);
                let b = choose|b: int| 0 <= b < self.processes@.len() && self.processes@[b] == old_self.processes@[k];
                assert(self.processes@[b].spec_id() == q);
            }
            assert forall|a: int| 0 <= a < self.threads@.len()
                implies (#[trigger] self.threads@[a]).spec_id().value() < self.thread_ids.next_value() by {
                let j = choose|j: int| 0 <= j < old_self.threads@.len() && self.threads@[a] == old_self.threads@[j];
                assert(old_self.threads@[j].spec_id().value() < old_self.thread_ids.next_value());
            }
            assert forall|a: int| 0 <= a < self.processes@.len()
                implies (#[trigger] self.processes@[a]).spec_id().value() < self.process_ids.next_value() by {
                let j = choose|j: int| 0 <= j < old_self.processes@.len() && self.processes@[a] == old_self.processes@[j];
                assert(old_self.processes@[j].spec_id().value() < old_self.process_ids.next_value());
            }
            old_self.threads@.lemma_filter_len(|t: Thread| t.spec_process_id() != pid);
            old_self.processes@.lemma_filter_len(|p: Process| p.spec_id() != pid);
            assert(old_self.spec_threads()[idx as int].spec_id() == tid);
        }
        Some(pid)
    }

    /// Stores `ctx` as the saved context of the current thread. Returns
    /// false, and changes nothing, when no thread is current.
    pub fn save_context(&mut self, ctx: Context) -> (r: bool)
        requires
            old(self).wf(),
        ensures
            final(self).wf(),
            r == old(self).spec_current() is Some,
            !r ==> final(self).same(old(self)),
            r ==> exists|i: int| 0 <= i < old(self).spec_threads().len()
                && (#[trigger] old(self).spec_threads()[i]).spec_id() == old(self).spec_current().unwrap()
                && final(self).spec_threads() == old(self).spec_threads().update(i, old(self).spec_threads()[i].with_context(ctx)),
            final(self).spec_processes() == old(self).spec_processes(),
            final(self).spec_current() == old(self).spec_current(),
            final(self).same_queues(old(self)),
            final(self).same_counters(old(self)),
    {
        let tid = match self.current {
            Some(t) => t,
            None => {
                return false;
            },
        };
        let idx = match self.find_thread(tid) {
            Some(i) => i,
            None => {
                return false;
            },
        };
        let ghost old_threads = self.threads@;
        *self.threads[idx].context_mut() = ctx;
        proof {
            assert(self.threads@ =~= old_threads.update(idx as int, old_threads[idx as int].with_context(ctx)));
            assert forall|a: int| 0 <= a < self.threads@.len()
                implies has_pid(self.processes@, (#[trigger] self.threads@[a]).spec_process_id()) by {
                assert(self.threads@[a].spec_process_id() == old_threads[a].spec_process_id());
            }
            if let Some(t) = self.current {
                let k = choose|k: int| 0 <= k < old_threads.len() && (#[trigger] old_threads[k]).spec_id() == t;
                assert(self.threads@[k].spec_id() == t);
            }
        }
        true
    }

    /// The saved context of thread `tid`, if it is registered.
    pub fn context_of(&self, tid: ThreadId) -> (r: Option<Context>)
        ensures
            r is None <==> !has_tid(self.spec_threads(), tid),
            r matches Some(c) ==> exists|i: int| 0 <= i < self.spec_threads().len()
                && (#[trigger] self.spec_threads()[i]).spec_id() == tid && self.spec_threads()[i].spec_context() == c,
    {
        match self.find_thread(tid) {
            Some(i) => Some(*self.threads[i].context()),
            None => None,
        }
    }

    /// Hands the processor to the next ready thread, round-robin: the search
    /// starts just after the current thread in table order (at the start of
    /// the table when no thread is current) and wraps around. A running
    /// current thread becomes ready, the chosen one running and current.
    /// Returns the chosen thread; `None`, with nothing changed, when no
    /// thread is ready.
    pub fn schedule(&mut self) -> (r: Option<ThreadId>)
        requires
            old(self).wf(),
        ensures
            final(self).wf(),
            final(self).spec_processes() == old(self).spec_processes(),
            final(self).same_queues(old(self)),
            final(self).same_counters(old(self)),
            ({
                let ts = old(self).spec_threads();
                let start = round_robin_start(ts, old(self).spec_current());
                match ready_from(ts, start, 0) {
                    None => r is None && final(self).same(old(self)),
                    Some(j) => {
                        let demoted = demote_current(ts, old(self).spec_current());
                        &&& r == Some(ts[j].spec_id())
                        &&& final(self).spec_current() == Some(ts[j].spec_id())
                        &&& final(self).spec_threads() == demoted.update(j, demoted[j].with_state(ThreadState::Running))
                    },
                }
            }),
    {
        let n = self.threads.len();
        let ghost ts = self.threads@;
        let mut start: usize = 0;
        if let Some(t) = self.current {
            if let Some(i) = self.find_thread(t) {
                start = if i + 1 < n { i + 1 } else { 0 };
            }
        }
        proof {
            if let Some(t) = self.current {
                lemma_thread_index_unique(ts, t);
            }
        }
        assert(start == round_robin_start(ts, self.current));
        let j = match self.find_ready(start) {
            Some(j) => j,
            None => {
                return None;
            },
        };
        proof {
            lemma_thread_index_unique(ts, ts[j as int].spec_id());
        }
        let tid = self.switch_to(j);
        Some(tid)
    }

    /// Makes thread `j` of the table current and running; the previous
    /// current thread, if running, becomes ready.
    fn switch_to(&mut self, j: usize) -> (r: ThreadId)
        requires
            old(self).wf(),
            j < old(self).spec_threads().len(),
        ensures
            final(self).wf(),
            r == old(self).spec_threads()[j as int].spec_id(),
            final(self).spec_current() == Some(r),
            ({
                let demoted = demote_current(old(self).spec_threads(), old(self).spec_current());
                final(self).spec_threads() == demoted.update(j as int, demoted[j as int].with_state(ThreadState::Running))
            }),
            final(self).spec_processes() == old(self).spec_processes(),
            final(self).same_queues(old(self)),
            final(self).same_counters(old(self)),
    {
        let ghost ts = self.threads@;
        let ghost old_current = self.current;
        proof {
            if let Some(t) = self.current {
                lemma_thread_index_unique(ts, t);
            }
        }
        if let Some(t) = self.current {
            if let Some(i) = self.find_thread(t) {
                if self.threads[i].state == ThreadState::Running {
                    self.threads[i].set_state(ThreadState::Ready);
                }
            }
        }
        let ghost demoted = self.threads@;
        assert(demoted == demote_current(ts, old_current));
        self.threads[j].set_state(ThreadState::Running);
        let tid = self.threads[j].id;
        self.current = Some(tid);
        proof {
            assert forall|a: int| 0 <= a < self.threads@.len()
                implies (#[trigger] self.threads@[a]).spec_id() == ts[a].spec_id()
                    && self.threads@[a].spec_process_id() == ts[a].spec_process_id() by {
            }
            assert forall|a: int| 0 <= a < self.threads@.len()
                implies has_pid(self.processes@, (#[trigger] self.threads@[a]).spec_process_id()) by {
                assert(self.threads@[a].spec_process_id() == ts[a].spec_process_id());
            }
            assert(self.threads@[j as int].spec_id() == tid);
            assert forall|a: int| 0 <= a < self.threads@.len()
                implies ((#[trigger] self.threads@[a]).spec_state() == ThreadState::Running
                    <==> self.current == Some(self.threads@[a].spec_id())) by {
                if a != j {
                    assert(ts[a].spec_id() != ts[j as int].spec_id());
                    if old_current == Some(ts[a].spec_id()) {
                        assert(thread_index(ts, ts[a].spec_id()) == Some(a));
                    }
                }
            }
        }
        tid
    }

    /// The first ready thread of the round-robin search that starts at
    /// position `start`.
    fn find_ready(&self, start: usize) -> (r: Option<usize>)
        requires
            self.threads@.len() <= MAX_THREADS,
            start < self.threads@.len() || start == 0,
        ensures
            r == match ready_from(self.threads@, start as int, 0) {
                Some(j) => Some(j as usize),
                None => None::<usize>,
            },
            r matches Some(j) ==> j < self.threads@.len() && ready_from(self.threads@, start as int, 0) == Some(j as int),
    {
        proof {
            lemma_ready_from_in_range(self.threads@, start as int, 0);
        }
        let n = self.threads.len();
        let mut k: usize = 0;
        while k < n
            invariant
                n == self.threads@.len(),
                n <= MAX_THREADS,
                start < n || start == 0,
                k <= n,
                ready_from(self.threads@, start as int, 0) == ready_from(self.threads@, start as int, k as nat),
            decreases n - k,
        {
            let j = if start + k < n { start + k } else { start + k - n };
            assert(j == (start + k) % (n as int)) by (nonlinear_arith)
                requires
                    start < n,
                    k < n,
                    j == if start + k < n { start + k } else { start + k - n },
            ;
            if self.threads[j].state == ThreadState::Ready {
                return Some(j);
            }
            k = k + 1;
        }
        None
    }

    /// The user-mode entry of thread `tid`, if it is registered and has one.
    pub fn launch_of(&self, tid: ThreadId) -> (r: Option<Launch>)
        ensures
            !has_tid(self.spec_threads(), tid) ==> r is None,
            has_tid(self.spec_threads(), tid) ==> exists|i: int| 0 <= i < self.spec_threads().len()
                && (#[trigger] self.spec_threads()[i]).spec_id() == tid && r == self.spec_threads()[i].spec_launch(),
    {
        match self.find_thread(tid) {
            Some(i) => self.threads[i].launch,
            None => None,
        }
    }

    /// Registers a new process for a loaded image, with one ready thread
    /// that starts in kernel mode at `trampoline` on the given kernel stack
    /// and carries the image's entry and user stack top to the user-mode
    /// transition. Every check comes before any change, so a failure leaves
    /// the kernel as it was: InvalidParam when the kernel stack wraps around
    /// the address space; otherwise MaxProcessesReached when the process
    /// cannot be registered whole: its table is full, the thread table is
    /// full, or no process or thread identifier is left.
    pub fn spawn(
        &mut self,
        name: &'static str,
        privilege: PrivilegeLevel,
        priority: u8,
        loaded: &LoadedElf,
        trampoline: u64,
        kernel_stack: u64,
        kernel_stack_size: usize,
    ) -> (r: Result<(ProcessId, ThreadId), KernelError>)
        requires
            old(self).wf(),
        ensures
            final(self).wf(),
            spawn_error(old(self), kernel_stack, kernel_stack_size) matches Some(e)
                ==> r == Err::<(ProcessId, ThreadId), KernelError>(e) && final(self).same(old(self)),
            spawn_error(old(self), kernel_stack, kernel_stack_size) is None ==> r is Ok && ({
                let (pid, tid) = r.unwrap();
                let p = final(self).spec_processes().last();
                let t = final(self).spec_threads().last();
                &&& pid.value() == old(self).spec_next_process_id()
                &&& tid.value() == old(self).spec_next_thread_id()
                &&& pid.value() < ERROR_FLOOR && tid.value() < ERROR_FLOOR
                &&& final(self).spec_processes() == old(self).spec_processes().push(p)
                &&& final(self).spec_threads() == old(self).spec_threads().push(t)
                &&& p.spec_id() == pid && p.spec_name() == name@ && p.spec_privilege() == privilege
                &&& p.spec_state() == ProcessState::Running && p.spec_parent_id() is None
                &&& p.spec_priority() == priority && p.spec_page_table() is None
                &&& t.spec_id() == tid && t.spec_process_id() == pid && t.spec_name() == name@
                &&& t.spec_state() == ThreadState::Ready
                &&& t.spec_context().rip == trampoline
                &&& t.spec_context().rsp == kernel_stack + kernel_stack_size
                &&& t.spec_kernel_stack() == kernel_stack
                &&& t.spec_kernel_stack_size() == kernel_stack_size
                &&& t.spec_launch() == Some(Launch { entry: loaded.entry, stack_top: loaded.stack_top, process: pid })
                &&& final(self).spec_current() == old(self).spec_current()
                &&& final(self).same_queues(old(self))
            }),
    {
        if kernel_stack_size as u64 > u64::MAX - kernel_stack {
            return Err(KernelError::InvalidParam);
        }
        if self.processes.len() >= MAX_PROCESSES || !self.process_ids.can_issue() {
            return Err(KernelError::Process(ProcessError::MaxProcessesReached));
        }
        if self.threads.len() >= MAX_THREADS || !self.thread_ids.can_issue() {
            return Err(KernelError::Process(ProcessError::MaxProcessesReached));
        }
        let process = Process::new(&mut self.process_ids, name, privilege, None, priority);
        let pid = process.id;
        proof {
            assert forall|i: int| 0 <= i < self.processes@.len()
                implies (#[trigger] self.processes@[i]).spec_id() != pid by {
            }
        }
        let added = self.add_process(process);
        let mut thread = Thread::new(&mut self.thread_ids, pid, name, trampoline, kernel_stack, kernel_stack_size);
        thread.launch = Some(Launch { entry: loaded.entry, stack_top: loaded.stack_top, process: pid });
        let tid = thread.id;
        proof {
            assert(self.processes@.last().spec_id() == pid);
            assert(has_pid(self.processes@, pid));
            assert forall|i: int| 0 <= i < self.threads@.len()
                implies (#[trigger] self.threads@[i]).spec_id() != tid by {
            }
        }
        let _ = self.add_thread(thread);
        Ok((pid, tid))
    }

    /// Registers a new running process with a fresh identifier. Fails with
    /// MaxProcessesReached, changing nothing, when the process table is full
    /// or no identifier is left.
    pub fn create_process(
        &mut self,
        name: &'static str,
        privilege: PrivilegeLevel,
        parent_id: Option<ProcessId>,
        priority: u8,
    ) -> (r: Result<ProcessId, KernelError>)
        requires
            old(self).wf(),
        ensures
            final(self).wf(),
            (old(self).spec_processes().len() >= MAX_PROCESSES || old(self).spec_next_process_id() >= ERROR_FLOOR)
                ==> r == Err::<ProcessId, KernelError>(KernelError::Process(ProcessError::MaxProcessesReached))
                && final(self).same(old(self)),
            (old(self).spec_processes().len() < MAX_PROCESSES && old(self).spec_next_process_id() < ERROR_FLOOR) ==> ({
                let p = final(self).spec_processes().last();
                &&& r == Ok::<ProcessId, KernelError>(p.spec_id())
                &&& p.spec_id().value() == old(self).spec_next_process_id()
                &&& final(self).spec_processes() == old(self).spec_processes().push(p)
                &&& p.spec_name() == name@ && p.spec_privilege() == privilege && p.spec_parent_id() == parent_id
                &&& p.spec_priority() == priority && p.spec_state() == ProcessState::Running
                &&& p.spec_page_table() is None
                &&& final(self).spec_threads() == old(self).spec_threads()
                &&& final(self).spec_current() == old(self).spec_current()
                &&& final(self).same_queues(old(self))
            }),
    {
        if self.processes.len() >= MAX_PROCESSES || !self.process_ids.can_issue() {
            return Err(KernelError::Process(ProcessError::MaxProcessesReached));
        }
        let process = Process::new(&mut self.process_ids, name, privilege, parent_id, priority);
        let pid = process.id;
        let _ = self.add_process(process);
        Ok(pid)
    }

    /// Registers a new ready thread of process `pid`, starting at
    /// `entry_point` on the given kernel stack. Fails, changing nothing, with
    /// ProcessNotFound when `pid` is not registered, InvalidParam when the
    /// stack wraps around the address space, and MaxThreadsReached when the
    /// thread table is full or no identifier is left.
    pub fn create_thread(
        &mut self,
        pid: ProcessId,
        name: &'static str,
        entry_point: u64,
        kernel_stack: u64,
        kernel_stack_size: usize,
    ) -> (r: Result<ThreadId, KernelError>)
        requires
            old(self).wf(),
        ensures
            final(self).wf(),
            !has_pid(old(self).spec_processes(), pid)
                ==> r == Err::<ThreadId, KernelError>(KernelError::Process(ProcessError::ProcessNotFound))
                && final(self).same(old(self)),
            has_pid(old(self).spec_processes(), pid) && kernel_stack + kernel_stack_size > u64::MAX
                ==> r == Err::<ThreadId, KernelError>(KernelError::InvalidParam) && final(self).same(old(self)),
            has_pid(old(self).spec_processes(), pid) && kernel_stack + kernel_stack_size <= u64::MAX
                && (old(self).spec_threads().len() >= MAX_THREADS || old(self).spec_next_thread_id() >= ERROR_FLOOR)
                ==> r == Err::<ThreadId, KernelError>(KernelError::Process(ProcessError::MaxThreadsReached))
                && final(self).same(old(self)),
            has_pid(old(self).spec_processes(), pid) && kernel_stack + kernel_stack_size <= u64::MAX
                && old(self).spec_threads().len() < MAX_THREADS && old(self).spec_next_thread_id() < ERROR_FLOOR ==> ({
                let t = final(self).spec_threads().last();
                &&& r == Ok::<ThreadId, KernelError>(t.spec_id())
                &&& t.spec_id().value() == old(self).spec_next_thread_id()
                &&& final(self).spec_threads() == old(self).spec_threads().push(t)
                &&& t.spec_process_id() == pid && t.spec_name() == name@
                &&& t.spec_state() == ThreadState::Ready
                &&& t.spec_context().rip == entry_point
                &&& t.spec_context().rsp == kernel_stack + kernel_stack_size
                &&& t.spec_launch() is None
                &&& final(self).spec_processes() == old(self).spec_processes()
                &&& final(self).spec_current() == old(self).spec_current()
                &&& final(self).same_queues(old(self))
            }),
    {
        if !self.has_process(pid) {
            return Err(KernelError::Process(ProcessError::ProcessNotFound));
        }
        if kernel_stack_size as u64 > u64::MAX - kernel_stack {
            return Err(KernelError::InvalidParam);
        }
        if self.threads.len() >= MAX_THREADS || !self.thread_ids.can_issue() {
            return Err(KernelError::Process(ProcessError::MaxThreadsReached));
        }
        let thread = Thread::new(&mut self.thread_ids, pid, name, entry_point, kernel_stack, kernel_stack_size);
        let tid = thread.id;
        let _ = self.add_thread(thread);
        Ok(tid)
    }

    /// Number of registered processes.
    pub fn process_count(&self) -> (r: usize)
        ensures
            r == self.spec_processes().len(),
    {
        self.processes.len()
    }

    /// Number of registered threads.
    pub fn thread_count(&self) -> (r: usize)
        ensures
            r == self.spec_threads().len(),
    {
        self.threads.len()
    }

    /// The registered thread `tid`, if any.
    pub fn thread(&self, tid: ThreadId) -> (r: Option<&Thread>)
        ensures
            r is None <==> !has_tid(self.spec_threads(), tid),
            r matches Some(t) ==> exists|i: int| 0 <= i < self.spec_threads().len()
                && (#[trigger] self.spec_threads()[i]) == *t && t.spec_id() == tid,
    {
        match self.find_thread(tid) {
            Some(i) => Some(&self.threads[i]),
            None => None,
        }
    }

    /// The registered process `pid`, if any.
    pub fn process(&self, pid: ProcessId) -> (r: Option<&Process>)
        ensures
            r is None <==> !has_pid(self.spec_processes(), pid),
            r matches Some(p) ==> exists|i: int| 0 <= i < self.spec_processes().len()
                && (#[trigger] self.spec_processes()[i]) == *p && p.spec_id() == pid,
    {
        let mut i: usize = 0;
        while i < self.processes.len()
            invariant
                i <= self.processes@.len(),
                forall|k: int| 0 <= k < i ==> (#[trigger] self.processes@[k]).spec_id() != pid,
            decreases self.processes@.len() - i,
        {
            if self.processes[i].id == pid {
                return Some(&self.processes[i]);
            }
            i = i + 1;
        }
        None
    }

    /// Timer ticks counted so far.
    pub fn ticks(&self) -> (r: u64)
        ensures
            r == self.spec_ticks(),
    {
        self.ticks
    }

    /// Counts one timer tick. The count stops one below the reserved error
    /// range, so that it is always a legitimate system-call result.
    pub fn tick(&mut self)
        requires
            old(self).wf(),
        ensures
            final(self).wf(),
            final(self).spec_ticks() == if old(self).spec_ticks() + 1 < ERROR_FLOOR {
                (old(self).spec_ticks() + 1) as u64
            } else {
                old(self).spec_ticks()
            },
            final(self).same_tables(old(self)),
            final(self).same_counters(old(self)),
            final(self).spec_mailboxes() == old(self).spec_mailboxes(),
            final(self).spec_keys() == old(self).spec_keys(),
    {
        if self.ticks + 1 < ERROR_FLOOR {
            self.ticks = self.ticks + 1;
        }
    }

    /// Queues a key code from the keyboard. A full queue drops the code and
    /// the call returns false.
    pub fn push_key(&mut self, code: u8) -> (r: bool)
        requires
            old(self).wf(),
        ensures
            final(self).wf(),
            r == (old(self).spec_keys().len() < KEYBOARD_CAP),
            r ==> final(self).spec_keys() == old(self).spec_keys().push(code),
            !r ==> final(self).spec_keys() == old(self).spec_keys(),
            final(self).same_tables(old(self)),
            final(self).same_counters(old(self)),
            final(self).spec_mailboxes() == old(self).spec_mailboxes(),
            final(self).spec_ticks() == old(self).spec_ticks(),
    {
        if self.keys.len() >= KEYBOARD_CAP {
            return false;
        }
        self.keys.push(code);
        true
    }

    /// Takes the oldest queued key code; ENODATA when the queue is empty.
    pub fn read_key(&mut self) -> (r: u64)
        requires
            old(self).wf(),
        ensures
            final(self).wf(),
            old(self).spec_keys().len() == 0 ==> r == ENODATA && final(self).spec_keys() == old(self).spec_keys(),
            old(self).spec_keys().len() > 0 ==> r == old(self).spec_keys()[0] as u64
                && final(self).spec_keys() == old(self).spec_keys().drop_first(),
            final(self).same_tables(old(self)),
            final(self).same_counters(old(self)),
            final(self).spec_mailboxes() == old(self).spec_mailboxes(),
            final(self).spec_ticks() == old(self).spec_ticks(),
    {
        if self.keys.len() == 0 {
            return ENODATA;
        }
        let code = self.keys.remove(0);
        assert(self.keys@ =~= old(self).keys@.drop_first());
        code as u64
    }

    /// The identifier of the first registered thread whose name is `name`
    /// (as UTF-8 bytes); ENOENT when there is none.
    pub fn thread_id_by_name(&self, name: &[u8]) -> (r: u64)
        ensures
            (forall|i: int| 0 <= i < self.spec_threads().len()
                ==> (#[trigger] self.spec_threads()[i]).spec_name_bytes() != name@) ==> r == ENOENT,
            (exists|i: int| 0 <= i < self.spec_threads().len()
                && (#[trigger] self.spec_threads()[i]).spec_name_bytes() == name@) ==> exists|i: int|
                0 <= i < self.spec_threads().len() && self.spec_threads()[i].spec_name_bytes() == name@
                && r == self.spec_threads()[i].spec_id().value()
                && forall|j: int| 0 <= j < i ==> (#[trigger] self.spec_threads()[j]).spec_name_bytes() != name@,
    {
        let mut i: usize = 0;
        while i < self.threads.len()
            invariant
                i <= self.threads@.len(),
                forall|k: int| 0 <= k < i ==> (#[trigger] self.threads@[k]).spec_name_bytes() != name@,
            decreases self.threads@.len() - i,
        {
            let bytes = self.threads[i].name().as_bytes();
            if bytes_equal(bytes, name) {
                assert(self.spec_threads()[i as int].spec_name_bytes() == name@);
                return self.threads[i].id.as_u64();
            }
            i = i + 1;
        }
        ENOENT
    }
}

/// The threads of `threads` that do not belong to `pid`, in order.
#[verifier::rlimit(40)]
fn keep_threads_not_of(threads: &Vec<Thread>, pid: ProcessId) -> (r: Vec<Thread>)
    ensures
        r@ == threads_without(threads@, pid),
        forall|a: int| 0 <= a < r@.len() ==> exists|j: int| 0 <= j < threads@.len() && #[trigger] r@[a] == threads@[j],
        forall|a: int| 0 <= a < r@.len() ==> (#[trigger] r@[a]).spec_process_id() != pid,
        (forall|i: int, j: int| 0 <= i < j < threads@.len()
            ==> (#[trigger] threads@[i]).spec_id() != (#[trigger] threads@[j]).spec_id())
            ==> (forall|i: int, j: int| 0 <= i < j < r@.len()
            ==> (#[trigger] r@[i]).spec_id() != (#[trigger] r@[j]).spec_id()),
{
    let ghost pred = |t: Thread| t.spec_process_id() != pid;
    let mut kept: Vec<Thread> = Vec::new();
    let ghost mut idx: Seq<int> = Seq::empty();
    proof {
        reveal(Seq::filter);
    }
    let mut i: usize = 0;
    while i < threads.len()
        invariant
            i <= threads@.len(),
            pred == (|t: Thread| t.spec_process_id() != pid),
            kept@ == threads@.subrange(0, i as int).filter(pred),
            idx.len() == kept@.len(),
            forall|a: int| 0 <= a < idx.len() ==> 0 <= #[trigger] idx[a] < i && kept@[a] == threads@[idx[a]],
            forall|a: int, b: int| 0 <= a < b < idx.len() ==> #[trigger] idx[a] < #[trigger] idx[b],
            forall|a: int| 0 <= a < kept@.len() ==> (#[trigger] kept@[a]).spec_process_id() != pid,
        decreases threads@.len() - i,
    {
        let t = threads[i];
        proof {
            reveal(Seq::filter);
            assert(threads@.subrange(0, i + 1).drop_last() =~= threads@.subrange(0, i as int));
            assert(threads@.subrange(0, i + 1).last() == threads@[i as int]);
        }
        if t.process_id != pid {
            kept.push(t);
            proof {
                idx = idx.push(i as int);
            }
        }
        i = i + 1;
    }
    proof {
        assert(threads@.subrange(0, threads@.len() as int) =~= threads@);
        assert forall|a: int| 0 <= a < kept@.len()
            implies exists|j: int| 0 <= j < threads@.len() && #[trigger] kept@[a] == threads@[j] by {
            assert(kept@[a] == threads@[idx[a]]);
        }
        if forall|i: int, j: int| 0 <= i < j < threads@.len()
            ==> (#[trigger] threads@[i]).spec_id() != (#[trigger] threads@[j]).spec_id() {
            assert forall|a: int, b: int| 0 <= a < b < kept@.len()
                implies (#[trigger] kept@[a]).spec_id() != (#[trigger] kept@[b]).spec_id() by {
                assert(idx[a] < idx[b]);
                assert(threads@[idx[a]].spec_id() != threads@[idx[b]].spec_id());
            }
        }
    }
    kept
}

/// The processes of `processes` whose identifier is not `pid`, in order.
#[verifier::rlimit(40)]
fn keep_processes_other_than(processes: &Vec<Process>, pid: ProcessId) -> (r: Vec<Process>)
    ensures
        r@ == processes_without(processes@, pid),
        forall|a: int| 0 <= a < r@.len() ==> exists|j: int| 0 <= j < processes@.len() && #[trigger] r@[a] == processes@[j],
        forall|a: int| 0 <= a < r@.len() ==> (#[trigger] r@[a]).spec_id() != pid,
        forall|j: int| 0 <= j < processes@.len() && (#[trigger] processes@[j]).spec_id() != pid
            ==> exists|a: int| 0 <= a < r@.len() && r@[a] == processes@[j],
        (forall|i: int, j: int| 0 <= i < j < processes@.len()
            ==> (#[trigger] processes@[i]).spec_id() != (#[trigger] processes@[j]).spec_id())
            ==> (forall|i: int, j: int| 0 <= i < j < r@.len()
            ==> (#[trigger] r@[i]).spec_id() != (#[trigger] r@[j]).spec_id()),
{
    let ghost pred = |p: Process| p.spec_id() != pid;
    let mut kept: Vec<Process> = Vec::new();
    let ghost mut idx: Seq<int> = Seq::empty();
    let ghost mut pos: Seq<int> = Seq::empty();
    proof {
        reveal(Seq::filter);
    }
    let mut i: usize = 0;
    while i < processes.len()
        invariant
            i <= processes@.len(),
            pred == (|p: Process| p.spec_id() != pid),
            kept@ == processes@.subrange(0, i as int).filter(pred),
            idx.len() == kept@.len(),
            pos.len() == i,
            forall|a: int| 0 <= a < idx.len() ==> 0 <= #[trigger] idx[a] < i && kept@[a] == processes@[idx[a]],
            forall|a: int, b: int| 0 <= a < b < idx.len() ==> #[trigger] idx[a] < #[trigger] idx[b],
            forall|a: int| 0 <= a < kept@.len() ==> (#[trigger] kept@[a]).spec_id() != pid,
            forall|j: int| 0 <= j < i && (#[trigger] processes@[j]).spec_id() != pid
                ==> 0 <= pos[j] < kept@.len() && kept@[pos[j]] == processes@[j],
        decreases processes@.len() - i,
    {
        let p = processes[i];
        proof {
            reveal(Seq::filter);
            assert(processes@.subrange(0, i + 1).drop_last() =~= processes@.subrange(0, i as int));
            assert(processes@.subrange(0, i + 1).last() == processes@[i as int]);
        }
        if p.id != pid {
            proof {
                pos = pos.push(kept@.len() as int);
            }
            kept.push(p);
            proof {
                idx = idx.push(i as int);
            }
        } else {
            proof {
                pos = pos.push(0);
            }
        }
        i = i + 1;
    }
    proof {
        assert(processes@.subrange(0, processes@.len() as int) =~= processes@);
        assert forall|a: int| 0 <= a < kept@.len()
            implies exists|j: int| 0 <= j < processes@.len() && #[trigger] kept@[a] == processes@[j] by {
            assert(kept@[a] == processes@[idx[a]]);
        }
        assert forall|j: int| 0 <= j < processes@.len() && (#[trigger] processes@[j]).spec_id() != pid
            implies exists|a: int| 0 <= a < kept@.len() && kept@[a] == processes@[j] by {
            assert(kept@[pos[j]] == processes@[j]);
        }
        if forall|i: int, j: int| 0 <= i < j < processes@.len()
            ==> (#[trigger] processes@[i]).spec_id() != (#[trigger] processes@[j]).spec_id() {
            assert forall|a: int, b: int| 0 <= a < b < kept@.len()
                implies (#[trigger] kept@[a]).spec_id() != (#[trigger] kept@[b]).spec_id() by {
                assert(idx[a] < idx[b]);
                assert(processes@[idx[a]].spec_id() != processes@[idx[b]].spec_id());
            }
        }
    }
    kept
}

/// Whether `a` and `b` hold the same bytes.
pub fn bytes_equal(a: &[u8], b: &[u8]) -> (r: bool)
    ensures
        r == (a@ == b@),
{
    if a.len() != b.len() {
        return false;
    }
    let mut i: usize = 0;
    while i < a.len()
        invariant
            a@.len() == b@.len(),
            i <= a@.len(),
            forall|k: int| 0 <= k < i ==> a@[k] == b@[k],
        decreases a@.len() - i,
    {
        if a[i] != b[i] {
            return false;
        }
        i = i + 1;
    }
    assert(a@ =~= b@);
    true
}

} // verus!
