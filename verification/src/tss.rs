//! The task state segment: where the processor finds the kernel's stack when
//! an interrupt arrives while user code runs.

use vstd::prelude::*;

verus! {

/// The size in bytes of a task state segment in memory.
pub const TSS_SIZE: u32 = 104;

/// The selector of the kernel's data segment, which holds the kernel's stack.
pub const KERNEL_STACK_SEGMENT: u32 = 0x10;

/// The task state segment, of which only the kernel's stack and the place of
/// the I/O permission bitmap are in use.
#[derive(Debug, Copy, Clone)]
pub struct TaskStateSegment {
    pub _unused1: u32,
    pub esp0: u32,
    pub ss0: u32,
    pub _unused2: [u32; 22],
    pub iopb: u32,
}

impl TaskStateSegment {
    /// A task state segment with the kernel's stack segment set, no stack
    /// pointer yet, and no I/O permission bitmap: the bitmap's offset is the
    /// size of the segment.
    pub fn new() -> (tss: TaskStateSegment)
        ensures
            tss._unused1 == 0,
            tss.esp0 == 0,
            tss.ss0 == KERNEL_STACK_SEGMENT,
            forall|i: int| 0 <= i < 22 ==> tss._unused2[i] == 0,
            tss.iopb == TSS_SIZE,
    {
        TaskStateSegment { _unused1: 0, esp0: 0, ss0: 0x10, _unused2: [0;22], iopb: TSS_SIZE }
    }
}

} // verus!
