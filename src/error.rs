//! Structured errors of the kernel's internal layers.
use vstd::prelude::*;

verus! {

/// Errors of memory management and of the mapping collaborator.
#[derive(Debug, Clone, Copy, PartialEq, Eq, Structural)]
pub enum MemoryError {
    /// An address or offset falls outside the data it refers to.
    InvalidAddress,
    /// The paging collaborator could not establish a mapping.
    MappingFailed,
    /// No physical memory was left.
    OutOfMemory,
}

/// Errors of the process and thread registry.
#[derive(Debug, Clone, Copy, PartialEq, Eq, Structural)]
pub enum ProcessError {
    /// The process table is full, or no process identifier is left.
    MaxProcessesReached,
    /// The thread table is full, or no thread identifier is left.
    MaxThreadsReached,
    /// No process with the given identifier is registered.
    ProcessNotFound,
}

/// Errors that the kernel's internal layers report to their callers.
#[derive(Debug, Clone, Copy, PartialEq, Eq, Structural)]
pub enum KernelError {
    /// Malformed caller input.
    InvalidParam,
    Memory(MemoryError),
    Process(ProcessError),
}

} // verus!
