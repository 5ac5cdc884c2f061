//! The frame that an interrupt return consumes to enter user mode.
use vstd::prelude::*;
use crate::task::INITIAL_RFLAGS;

verus! {

/// Requested privilege level of user-mode selectors.
pub const USER_RPL: u64 = 3;

/// The five words that an interrupt return pops, from the lowest address:
/// instruction pointer, code segment, flags, stack pointer, stack segment.
#[derive(Debug, Clone, Copy, PartialEq, Eq, Structural)]
pub struct IretFrame {
    pub rip: u64,
    pub cs: u64,
    pub rflags: u64,
    pub rsp: u64,
    pub ss: u64,
}

/// The frame that enters user mode at `entry` on the stack whose top is
/// `user_stack`: the user code and data selectors with privilege level 3,
/// and flags with interrupts enabled.
pub fn iret_frame(entry: u64, user_stack: u64, code_selector: u16, data_selector: u16) -> (r: IretFrame)
    ensures
        r.rip == entry,
        r.rsp == user_stack,
        r.cs == (code_selector as u64 | USER_RPL),
        r.ss == (data_selector as u64 | USER_RPL),
        r.rflags == INITIAL_RFLAGS,
{
    IretFrame {
        rip: entry,
        cs: code_selector as u64 | USER_RPL,
        rflags: INITIAL_RFLAGS,
        rsp: user_stack,
        ss: data_selector as u64 | USER_RPL,
    }
}

} // verus!
