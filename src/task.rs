//! Processes, threads, their identifiers and saved register contexts.
use vstd::prelude::*;
use vstd::string::StringSliceAdditionalSpecFns;
use crate::abi::ERROR_FLOOR;

verus! {

/// Source of fresh identifiers: a monotonically increasing counter that
/// remembers every value it has handed out.
pub struct IdCounter {
    pub(crate) next: u64,
    pub(crate) issued: Ghost<Seq<u64>>,
}

impl IdCounter {
    /// The value that the next allocation returns.
    pub open(crate) spec fn next_value(&self) -> u64 {
        self.next
    }

    /// Every identifier handed out so far, in order of allocation.
    pub open(crate) spec fn issued(&self) -> Seq<u64> {
        self.issued@
    }

    /// Issued values are strictly increasing, non-zero, and all below `next`,
    /// which never passes the reserved error range of system-call results.
    pub open(crate) spec fn wf(&self) -> bool {
        &&& self.next >= 1
        &&& self.next <= ERROR_FLOOR
        &&& forall|i: int| 0 <= i < self.issued@.len() ==> 1 <= #[trigger] self.issued@[i] < self.next
        &&& forall|i: int, j: int|
            0 <= i < j < self.issued@.len() ==> #[trigger] self.issued@[i] < #[trigger] self.issued@[j]
    }

    /// A fresh counter; its first identifier is 1.
    pub fn new() -> (r: IdCounter)
        ensures
            r.wf(),
            r.next_value() == 1,
            r.issued() == Seq::<u64>::empty(),
    {
        IdCounter { next: 1, issued: Ghost(Seq::empty()) }
    }

    /// Whether another identifier can be handed out without reusing a value
    /// and below the reserved error range, so that an identifier returned by
    /// a system call never looks like an error.
    pub fn can_issue(&self) -> (r: bool)
        ensures
            r == (self.next_value() < ERROR_FLOOR),
    {
        self.next < ERROR_FLOOR
    }

    /// Hands out the next value and advances the counter by one.
    pub(crate) fn take(&mut self) -> (r: u64)
        requires
            old(self).wf(),
            old(self).next_value() < ERROR_FLOOR,
        ensures
            final(self).wf(),
            r == old(self).next_value(),
            final(self).next_value() == old(self).next_value() + 1,
            final(self).issued() == old(self).issued().push(r),
    {
        let r = self.next;
        self.next = self.next + 1;
        self.issued = Ghost(self.issued@.push(r));
        r
    }
}

/// Every sequence of identifiers drawn from one counter is strictly
/// increasing, hence pairwise distinct.
pub proof fn lemma_issued_ids_distinct(c: &IdCounter)
    requires
        c.wf(),
    ensures
        forall|i: int, j: int|
            0 <= i < j < c.issued().len() ==> #[trigger] c.issued()[i] < #[trigger] c.issued()[j],
        forall|i: int, j: int|
            0 <= i < c.issued().len() && 0 <= j < c.issued().len() && i != j
                ==> c.issued()[i] != c.issued()[j],
{
    assert forall|i: int, j: int|
        0 <= i < c.issued().len() && 0 <= j < c.issued().len() && i != j
            implies c.issued()[i] != c.issued()[j] by {
        if i < j {
            assert(c.issued@[i] < c.issued@[j]);
        } else {
            assert(c.issued@[j] < c.issued@[i]);
        }
    }
}

/// Identifier of a process.
#[derive(Debug, Clone, Copy, PartialEq, Eq, Structural, PartialOrd, Ord, Hash)]
pub struct ProcessId(pub(crate) u64);

impl ProcessId {
    pub open(crate) spec fn value(&self) -> u64 {
        self.0
    }

    /// Allocates a fresh process identifier from `ids`.
    pub fn new(ids: &mut IdCounter) -> (r: ProcessId)
        requires
            old(ids).wf(),
            old(ids).next_value() < ERROR_FLOOR,
        ensures
            final(ids).wf(),
            r.value() == old(ids).next_value(),
            final(ids).next_value() == old(ids).next_value() + 1,
            final(ids).issued() == old(ids).issued().push(r.value()),
    {
        ProcessId(ids.take())
    }

    /// The numeric value of the identifier.
    pub fn as_u64(&self) -> (r: u64)
        ensures
            r == self.value(),
    {
        self.0
    }
}

/// Identifier of a thread.
#[derive(Debug, Clone, Copy, PartialEq, Eq, Structural, PartialOrd, Ord, Hash)]
pub struct ThreadId(pub(crate) u64);

impl ThreadId {
    pub open(crate) spec fn value(&self) -> u64 {
        self.0
    }

    /// Allocates a fresh thread identifier from `ids`.
    pub fn new(ids: &mut IdCounter) -> (r: ThreadId)
        requires
            old(ids).wf(),
            old(ids).next_value() < ERROR_FLOOR,
        ensures
            final(ids).wf(),
            r.value() == old(ids).next_value(),
            final(ids).next_value() == old(ids).next_value() + 1,
            final(ids).issued() == old(ids).issued().push(r.value()),
    {
        ThreadId(ids.take())
    }

    /// The numeric value of the identifier.
    pub fn as_u64(&self) -> (r: u64)
        ensures
            r == self.value(),
    {
        self.0
    }
}

/// Lifecycle state of a thread.
#[derive(Debug, Clone, Copy, PartialEq, Eq, Structural)]
pub enum ThreadState {
    /// Runnable, waiting for the scheduler.
    Ready,
    /// Currently executing.
    Running,
    /// Waiting for I/O or a message.
    Blocked,
    /// In a timed wait.
    Sleeping,
    /// Finished; no transition leaves this state.
    Terminated,
}

/// Lifecycle state of a process.
#[derive(Debug, Clone, Copy, PartialEq, Eq, Structural)]
pub enum ProcessState {
    /// At least one thread is running or ready.
    Running,
    /// Every thread is sleeping.
    Sleeping,
    /// Finished but not yet reclaimed by its parent.
    Zombie,
    /// Finished.
    Terminated,
}

/// Privilege of a task. `Core` runs in kernel mode; `Service` and `User`
/// both run in user mode and differ only for policy.
#[derive(Debug, Clone, Copy, PartialEq, Eq, Structural)]
pub enum PrivilegeLevel {
    Core,
    Service,
    User,
}

/// Capacity of the process table.
pub const MAX_PROCESSES: usize = 64;

/// Capacity of the thread table, and the number of mailbox slots.
pub const MAX_THREADS: usize = 64;

/// The interrupt-enable bit (IF) of the flags register, with the reserved bit 1.
pub const INITIAL_RFLAGS: u64 = 0x202;

/// Saved callee-saved registers, stack pointer, instruction pointer and flags
/// of a suspended thread.
#[derive(Debug, Clone, Copy)]
pub struct Context {
    pub rsp: u64,
    pub rbp: u64,
    pub rbx: u64,
    pub r12: u64,
    pub r13: u64,
    pub r14: u64,
    pub r15: u64,
    pub rip: u64,
    pub rflags: u64,
}

impl Context {
    /// A context with every register zero.
    pub fn new() -> (r: Context)
        ensures
            r.rsp == 0 && r.rbp == 0 && r.rbx == 0 && r.r12 == 0 && r.r13 == 0,
            r.r14 == 0 && r.r15 == 0 && r.rip == 0 && r.rflags == 0,
    {
        Context { rsp: 0, rbp: 0, rbx: 0, r12: 0, r13: 0, r14: 0, r15: 0, rip: 0, rflags: 0 }
    }
}

/// A process: an address space and the resources that its threads share.
#[derive(Debug, Clone, Copy)]
pub struct Process {
    pub(crate) id: ProcessId,
    pub(crate) name: &'static str,
    pub(crate) state: ProcessState,
    pub(crate) privilege: PrivilegeLevel,
    pub(crate) parent_id: Option<ProcessId>,
    /// `None` means that the process shares the kernel's address space.
    pub(crate) page_table: Option<u64>,
    /// 0 is the highest priority.
    pub(crate) priority: u8,
}

impl Process {
    pub open(crate) spec fn spec_id(&self) -> ProcessId {
        self.id
    }

    pub open(crate) spec fn spec_name(&self) -> Seq<char> {
        self.name@
    }

    pub open(crate) spec fn spec_state(&self) -> ProcessState {
        self.state
    }

    pub open(crate) spec fn spec_privilege(&self) -> PrivilegeLevel {
        self.privilege
    }

    pub open(crate) spec fn spec_parent_id(&self) -> Option<ProcessId> {
        self.parent_id
    }

    pub open(crate) spec fn spec_page_table(&self) -> Option<u64> {
        self.page_table
    }

    pub open(crate) spec fn spec_priority(&self) -> u8 {
        self.priority
    }

    /// A running process with a fresh identifier from `ids`, sharing the
    /// kernel's address space.
    pub fn new(
        ids: &mut IdCounter,
        name: &'static str,
        privilege: PrivilegeLevel,
        parent_id: Option<ProcessId>,
        priority: u8,
    ) -> (r: Process)
        requires
            old(ids).wf(),
            old(ids).next_value() < ERROR_FLOOR,
        ensures
            final(ids).wf(),
            r.spec_id().value() == old(ids).next_value(),
            final(ids).next_value() == old(ids).next_value() + 1,
            final(ids).issued() == old(ids).issued().push(r.spec_id().value()),
            r.spec_name() == name@,
            r.spec_state() == ProcessState::Running,
            r.spec_privilege() == privilege,
            r.spec_parent_id() == parent_id,
            r.spec_page_table() == None::<u64>,
            r.spec_priority() == priority,
    {
        Process {
            id: ProcessId::new(ids),
            name,
            state: ProcessState::Running,
            privilege,
            parent_id,
            page_table: None,
            priority,
        }
    }

    pub fn id(&self) -> (r: ProcessId)
        ensures
            r == self.spec_id(),
    {
        self.id
    }

    pub fn name(&self) -> (r: &'static str)
        ensures
            r@ == self.spec_name(),
    {
        self.name
    }

    pub fn state(&self) -> (r: ProcessState)
        ensures
            r == self.spec_state(),
    {
        self.state
    }

    pub fn set_state(&mut self, state: ProcessState)
        ensures
            final(self).spec_state() == state,
            final(self).spec_id() == old(self).spec_id(),
            final(self).spec_name() == old(self).spec_name(),
            final(self).spec_privilege() == old(self).spec_privilege(),
            final(self).spec_parent_id() == old(self).spec_parent_id(),
            final(self).spec_page_table() == old(self).spec_page_table(),
            final(self).spec_priority() == old(self).spec_priority(),
    {
        self.state = state;
    }

    pub fn privilege(&self) -> (r: PrivilegeLevel)
        ensures
            r == self.spec_privilege(),
    {
        self.privilege
    }

    pub fn parent_id(&self) -> (r: Option<ProcessId>)
        ensures
            r == self.spec_parent_id(),
    {
        self.parent_id
    }

    pub fn priority(&self) -> (r: u8)
        ensures
            r == self.spec_priority(),
    {
        self.priority
    }

    pub fn page_table(&self) -> (r: Option<u64>)
        ensures
            r == self.spec_page_table(),
    {
        self.page_table
    }

    /// Gives the process its own address space, rooted at `page_table`.
    pub fn set_page_table(&mut self, page_table: u64)
        ensures
            final(self).spec_page_table() == Some(page_table),
            final(self).spec_id() == old(self).spec_id(),
            final(self).spec_name() == old(self).spec_name(),
            final(self).spec_state() == old(self).spec_state(),
            final(self).spec_privilege() == old(self).spec_privilege(),
            final(self).spec_parent_id() == old(self).spec_parent_id(),
            final(self).spec_priority() == old(self).spec_priority(),
    {
        self.page_table = Some(page_table);
    }
}

/// Where a spawned thread enters user mode: the image's entry address, the
/// top of its user stack, and its process.
#[derive(Debug, Clone, Copy, PartialEq, Eq, Structural)]
pub struct Launch {
    pub entry: u64,
    pub stack_top: u64,
    pub process: ProcessId,
}

/// A thread: a unit of execution inside a process.
#[derive(Debug, Clone, Copy)]
pub struct Thread {
    pub(crate) id: ThreadId,
    pub(crate) process_id: ProcessId,
    pub(crate) name: &'static str,
    pub(crate) state: ThreadState,
    pub(crate) context: Context,
    pub(crate) kernel_stack: u64,
    pub(crate) kernel_stack_size: usize,
    /// Set for a thread that starts in kernel mode and moves to user mode.
    pub(crate) launch: Option<Launch>,
}

impl Thread {
    pub open(crate) spec fn spec_launch(&self) -> Option<Launch> {
        self.launch
    }

    pub open(crate) spec fn spec_id(&self) -> ThreadId {
        self.id
    }

    pub open(crate) spec fn spec_process_id(&self) -> ProcessId {
        self.process_id
    }

    pub open(crate) spec fn spec_name(&self) -> Seq<char> {
        self.name@
    }

    pub open(crate) spec fn spec_state(&self) -> ThreadState {
        self.state
    }

    /// This thread in state `s`.
    pub open(crate) spec fn with_state(self, s: ThreadState) -> Thread {
        Thread { state: s, ..self }
    }

    /// This thread with saved context `c`.
    pub open(crate) spec fn with_context(self, c: Context) -> Thread {
        Thread { context: c, ..self }
    }

    /// The UTF-8 encoding of the thread's name.
    pub open(crate) spec fn spec_name_bytes(&self) -> Seq<u8> {
        self.name.spec_bytes()
    }

    pub open(crate) spec fn spec_context(&self) -> Context {
        self.context
    }

    pub open(crate) spec fn spec_kernel_stack(&self) -> u64 {
        self.kernel_stack
    }

    pub open(crate) spec fn spec_kernel_stack_size(&self) -> usize {
        self.kernel_stack_size
    }

    /// A ready thread of process `process_id` with a fresh identifier from
    /// `ids`. Its stack pointer and frame pointer start at the top of the
    /// kernel stack (the stack grows downward), its instruction pointer at
    /// `entry_point`, with interrupts enabled.
    pub fn new(
        ids: &mut IdCounter,
        process_id: ProcessId,
        name: &'static str,
        entry_point: u64,
        kernel_stack: u64,
        kernel_stack_size: usize,
    ) -> (r: Thread)
        requires
            old(ids).wf(),
            old(ids).next_value() < ERROR_FLOOR,
            kernel_stack + kernel_stack_size <= u64::MAX,
        ensures
            final(ids).wf(),
            r.spec_id().value() == old(ids).next_value(),
            final(ids).next_value() == old(ids).next_value() + 1,
            final(ids).issued() == old(ids).issued().push(r.spec_id().value()),
            r.spec_process_id() == process_id,
            r.spec_name() == name@,
            r.spec_state() == ThreadState::Ready,
            r.spec_kernel_stack() == kernel_stack,
            r.spec_kernel_stack_size() == kernel_stack_size,
            r.spec_context().rsp == kernel_stack + kernel_stack_size,
            r.spec_context().rbp == kernel_stack + kernel_stack_size,
            r.spec_context().rip == entry_point,
            r.spec_context().rflags == INITIAL_RFLAGS,
            r.spec_context().rbx == 0 && r.spec_context().r12 == 0 && r.spec_context().r13 == 0,
            r.spec_context().r14 == 0 && r.spec_context().r15 == 0,
            r.spec_launch() is None,
    {
        let mut context = Context::new();
        context.rsp = kernel_stack + kernel_stack_size as u64;
        context.rbp = context.rsp;
        context.rip = entry_point;
        context.rflags = INITIAL_RFLAGS;
        Thread {
            id: ThreadId::new(ids),
            process_id,
            name,
            state: ThreadState::Ready,
            context,
            kernel_stack,
            kernel_stack_size,
            launch: None,
        }
    }

    pub fn id(&self) -> (r: ThreadId)
        ensures
            r == self.spec_id(),
    {
        self.id
    }

    pub fn process_id(&self) -> (r: ProcessId)
        ensures
            r == self.spec_process_id(),
    {
        self.process_id
    }

    pub fn name(&self) -> (r: &'static str)
        ensures
            r@ == self.spec_name(),
            r.spec_bytes() == self.spec_name_bytes(),
    {
        self.name
    }

    pub fn state(&self) -> (r: ThreadState)
        ensures
            r == self.spec_state(),
    {
        self.state
    }

    /// Moves the thread to `state`. Terminated is absorbing: a terminated
    /// thread stays terminated whatever is asked.
    pub fn set_state(&mut self, state: ThreadState)
        ensures
            old(self).spec_state() == ThreadState::Terminated ==> *final(self) == *old(self),
            old(self).spec_state() != ThreadState::Terminated ==> *final(self) == old(self).with_state(state),
            final(self).spec_state() == if old(self).spec_state() == ThreadState::Terminated {
                ThreadState::Terminated
            } else {
                state
            },
            final(self).spec_id() == old(self).spec_id(),
            final(self).spec_process_id() == old(self).spec_process_id(),
            final(self).spec_name() == old(self).spec_name(),
            final(self).spec_context() == old(self).spec_context(),
            final(self).spec_kernel_stack() == old(self).spec_kernel_stack(),
            final(self).spec_kernel_stack_size() == old(self).spec_kernel_stack_size(),
    {
        if self.state != ThreadState::Terminated {
            self.state = state;
        }
    }

    /// Mutable access to the saved context; nothing else of the thread changes.
    pub fn context_mut(&mut self) -> (r: &mut Context)
        ensures
            *r == old(self).spec_context(),
            *final(self) == old(self).with_context(*final(r)),
            final(self).spec_context() == *final(r),
            final(self).spec_id() == old(self).spec_id(),
            final(self).spec_process_id() == old(self).spec_process_id(),
            final(self).spec_name() == old(self).spec_name(),
            final(self).spec_state() == old(self).spec_state(),
            final(self).spec_kernel_stack() == old(self).spec_kernel_stack(),
            final(self).spec_kernel_stack_size() == old(self).spec_kernel_stack_size(),
    {
        &mut self.context
    }

    pub fn context(&self) -> (r: &Context)
        ensures
            *r == self.spec_context(),
    {
        &self.context
    }

    /// The user-mode entry of the thread, if it has one.
    pub fn launch(&self) -> (r: Option<Launch>)
        ensures
            r == self.spec_launch(),
    {
        self.launch
    }
}

} // verus!
