//! The system-call ABI: operation codes and the reserved error sentinels.
use vstd::prelude::*;

verus! {

/// Success.
pub const SUCCESS: u64 = 0;

/// Invalid argument.
pub const EINVAL: u64 = 0xFFFF_FFFF_FFFF_FFFF;

/// Try again: a mailbox is full or empty.
pub const EAGAIN: u64 = 0xFFFF_FFFF_FFFF_FFFE;

/// Operation not implemented.
pub const ENOSYS: u64 = 0xFFFF_FFFF_FFFF_FFFD;

/// No such entry.
pub const ENOENT: u64 = 0xFFFF_FFFF_FFFF_FFFC;

/// No data available.
pub const ENODATA: u64 = 0xFFFF_FFFF_FFFF_FFFB;

/// The smallest reserved sentinel: legitimate results stay below it.
pub const ERROR_FLOOR: u64 = 0xFFFF_FFFF_FFFF_FFFB;

/// Operation codes of the native system-call table.
#[derive(Debug, Clone, Copy, PartialEq, Eq, Structural)]
pub enum SyscallNumber {
    /// Hand the processor to the scheduler.
    Yield,
    /// Number of timer ticks since boot.
    GetTicks,
    /// Send a message to a thread's mailbox.
    IpcSend,
    /// Take a message from the caller's mailbox.
    IpcRecv,
    /// Write bytes to the console.
    ConsoleWrite,
    /// Read a file of the boot filesystem.
    InitfsRead,
    /// End the calling process.
    Exit,
    /// Take a character from the keyboard buffer.
    KeyboardRead,
    /// Identifier of the calling thread.
    GetThreadId,
    /// Identifier of the thread with a given name.
    GetThreadIdByName,
}

/// The operation code of each operation.
pub open spec fn spec_code(n: SyscallNumber) -> u64 {
    match n {
        SyscallNumber::Yield => 1,
        SyscallNumber::GetTicks => 2,
        SyscallNumber::IpcSend => 3,
        SyscallNumber::IpcRecv => 4,
        SyscallNumber::ConsoleWrite => 5,
        SyscallNumber::InitfsRead => 6,
        SyscallNumber::Exit => 7,
        SyscallNumber::KeyboardRead => 8,
        SyscallNumber::GetThreadId => 9,
        SyscallNumber::GetThreadIdByName => 10,
    }
}

/// The operation that a code names in the native table, if any.
pub open spec fn spec_decode(code: u64) -> Option<SyscallNumber> {
    if code == 1 {
        Some(SyscallNumber::Yield)
    } else if code == 2 {
        Some(SyscallNumber::GetTicks)
    } else if code == 3 {
        Some(SyscallNumber::IpcSend)
    } else if code == 4 {
        Some(SyscallNumber::IpcRecv)
    } else if code == 5 {
        Some(SyscallNumber::ConsoleWrite)
    } else if code == 6 {
        Some(SyscallNumber::InitfsRead)
    } else if code == 7 {
        Some(SyscallNumber::Exit)
    } else if code == 8 {
        Some(SyscallNumber::KeyboardRead)
    } else if code == 9 {
        Some(SyscallNumber::GetThreadId)
    } else if code == 10 {
        Some(SyscallNumber::GetThreadIdByName)
    } else {
        None
    }
}

impl SyscallNumber {
    /// The operation code passed in the number register.
    pub fn code(self) -> (r: u64)
        ensures
            r == spec_code(self),
            spec_decode(r) == Some(self),
    {
        match self {
            SyscallNumber::Yield => 1,
            SyscallNumber::GetTicks => 2,
            SyscallNumber::IpcSend => 3,
            SyscallNumber::IpcRecv => 4,
            SyscallNumber::ConsoleWrite => 5,
            SyscallNumber::InitfsRead => 6,
            SyscallNumber::Exit => 7,
            SyscallNumber::KeyboardRead => 8,
            SyscallNumber::GetThreadId => 9,
            SyscallNumber::GetThreadIdByName => 10,
        }
    }

    /// The operation that `code` names, if any.
    pub fn from_code(code: u64) -> (r: Option<SyscallNumber>)
        ensures
            r == spec_decode(code),
            r matches Some(n) ==> spec_code(n) == code,
    {
        if code == 1 {
            Some(SyscallNumber::Yield)
        } else if code == 2 {
            Some(SyscallNumber::GetTicks)
        } else if code == 3 {
            Some(SyscallNumber::IpcSend)
        } else if code == 4 {
            Some(SyscallNumber::IpcRecv)
        } else if code == 5 {
            Some(SyscallNumber::ConsoleWrite)
        } else if code == 6 {
            Some(SyscallNumber::InitfsRead)
        } else if code == 7 {
            Some(SyscallNumber::Exit)
        } else if code == 8 {
            Some(SyscallNumber::KeyboardRead)
        } else if code == 9 {
            Some(SyscallNumber::GetThreadId)
        } else if code == 10 {
            Some(SyscallNumber::GetThreadIdByName)
        } else {
            None
        }
    }
}

/// `read` of the compatibility table.
pub const SYS_READ: u64 = 0;

/// `write` of the compatibility table.
pub const SYS_WRITE: u64 = 1;

/// `mmap` of the compatibility table.
pub const SYS_MMAP: u64 = 9;

/// `brk` of the compatibility table.
pub const SYS_BRK: u64 = 12;

/// `exit` of the compatibility table.
pub const SYS_EXIT: u64 = 60;

} // verus!
