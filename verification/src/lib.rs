//! Memory management and preemptive scheduling for a single-core, 32-bit
//! protected-mode kernel.
//!
//! The frame allocator hands out the 4 KiB frames of physical memory. The
//! page mapper builds address spaces out of page directories and page tables,
//! which lie in such frames. The scheduler switches between tasks, each in an
//! address space of its own, on every tick of the timer. Around them stand the
//! tables that the processor wants and the devices that the kernel talks to,
//! as far as what they are told can be worked out without touching them.
//!
//! Nothing here touches the machine. Memory is handed in as slices, and what is
//! to be written to a port is handed back as a list of commands.

pub mod frame_allocator;
pub mod gdt;
pub mod idt;
pub mod io;
pub mod keyboard;
pub mod page_mapper;
pub mod paging;
pub mod pic;
pub mod scheduler;
pub mod serial;
pub mod tss;
pub mod util;
pub mod vga;

