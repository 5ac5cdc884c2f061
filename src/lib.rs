//! The core of a small multitasking kernel: processes and threads, their
//! registry and round-robin scheduling, fixed-capacity mailboxes, system-call
//! dispatch, ELF loading plans, the user-mode entry frame, and the text
//! layout of the framebuffer console.

pub mod abi;
pub mod elf;
pub mod error;
pub mod exec;
pub mod ipc;
pub mod kernel;
pub mod log;
pub mod syscall;
pub mod task;
pub mod text;
pub mod usermode;
pub mod vga;
