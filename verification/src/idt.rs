//! The interrupt descriptor table: for each interrupt vector, the handler
//! that the processor enters and the privilege that entering it takes.

use vstd::prelude::*;
use crate::gdt::DescriptorTablePointer;

verus! {

/// The number of descriptors in the table.
pub const VECTOR_COUNT: usize = 260;

/// The first vector past the exceptions and the two hardware interrupts.
pub const FIRST_FREE_VECTOR: usize = 34;

/// The vector of the timer interrupt.
pub const TIMER_VECTOR: usize = 32;

/// The vector of the keyboard interrupt.
pub const KEYBOARD_VECTOR: usize = 33;

/// The vector that user code raises to call the kernel.
pub const SYSTEM_CALL_VECTOR: usize = 128;

/// A gate that is present, entered from the kernel only, with interrupts off.
pub const KERNEL_INTERRUPT_GATE: u8 = 0x8E;

/// A gate that is present, open to user code, with interrupts off.
pub const USER_INTERRUPT_GATE: u8 = 0xEE;

/// What the processor saves of the interrupted code before it enters a
/// handler.
#[derive(Debug, Clone, Copy, PartialEq, Eq, Structural)]
pub struct StackFrame {
    pub ip: u32,
    pub cs: u32,
    pub flags: u32,
    pub sp: u32,
    pub ds: u32,
}

/// One gate of the table, as the processor reads it.
#[derive(Debug, Copy, Clone, PartialEq, Eq, Structural)]
pub struct Descriptor {
    pub handler_address_low: u16,
    pub segment_selector: u16,
    pub zero: u8,
    pub type_and_attributes: u8,
    pub handler_address_high: u16,
}

impl Descriptor {
    /// A gate to the handler at `handler_address`, entered in the code
    /// segment `segment_selector`: the address cut into its two halves.
    pub open spec fn encoded(
        handler_address: u32,
        segment_selector: u16,
        type_and_attributes: u8,
    ) -> Descriptor {
        Descriptor {
            handler_address_low: (handler_address % 0x1_0000) as u16,
            segment_selector,
            zero: 0,
            type_and_attributes,
            handler_address_high: (handler_address / 0x1_0000) as u16,
        }
    }

    /// A gate to the handler at `handler_address`, entered in the code
    /// segment `segment_selector`.
    pub fn new(handler_address: u32, segment_selector: u16, type_and_attributes: u8) -> (descriptor:
        Descriptor)
        ensures
            descriptor == Descriptor::encoded(handler_address, segment_selector, type_and_attributes),
    {
        assert(handler_address as u16 == handler_address % 0x1_0000 && (handler_address
            >> 16u32) as u16 == handler_address / 0x1_0000) by (bit_vector);
        Self {
            handler_address_low: handler_address as u16,
            segment_selector,
            zero: 0,
            type_and_attributes,
            handler_address_high: (handler_address >> 16) as u16,
        }
    }
}

/// The addresses of the interrupt handlers.
#[derive(Debug, Clone, Copy, PartialEq, Eq, Structural)]
pub struct Handlers {
    /// The handler of a division by zero.
    pub divide_error: u32,
    /// The handler of a debug trap.
    pub debug: u32,
    /// The handler of the interrupt that cannot be masked.
    pub non_maskable_interrupt: u32,
    /// The handler of a breakpoint.
    pub breakpoint: u32,
    /// The handler of an overflow trap.
    pub overflow: u32,
    /// The handler of an index out of its bounds.
    pub bound_range_exceeded: u32,
    /// The handler of an instruction that does not exist.
    pub invalid_opcode: u32,
    /// The handler of a missing coprocessor.
    pub device_not_available: u32,
    /// The handler of a fault inside a fault handler.
    pub double_fault: u32,
    /// The handler of a coprocessor segment overrun, which newer processors do not raise.
    pub coprocessor_segment_overrun: u32,
    /// The handler of a task state segment that is not valid.
    pub invalid_tss: u32,
    /// The handler of a segment that is not present.
    pub segment_not_present: u32,
    /// The handler of a fault of the stack segment.
    pub stack_segment_fault: u32,
    /// The handler of a general protection fault.
    pub general_protection_fault: u32,
    /// The handler of a page fault.
    pub page_fault: u32,
    /// The handler of a floating-point error of the coprocessor.
    pub x87_floating_point: u32,
    /// The handler of a misaligned access.
    pub alignment_check: u32,
    /// The handler of a machine check.
    pub machine_check: u32,
    /// The handler of a floating-point error of a vector instruction.
    pub simd_floating_point: u32,
    /// The handler of a virtualization fault.
    pub virtualization: u32,
    /// The handler of a security fault.
    pub security_exception: u32,
    /// The handler of the vectors that are never raised.
    pub unused: u32,
    /// The handler of the timer interrupt.
    pub pic_timer: u32,
    /// The handler of the keyboard interrupt.
    pub pic_keyboard: u32,
    /// The handler of the call into the kernel.
    pub system_call: u32,
}

impl Handlers {
    /// The address of the handler of `vector`.
    pub open spec fn at(self, vector: int) -> u32 {
        if vector == 0 {
            self.divide_error
        }         else if vector == 1 {
            self.debug
        }         else if vector == 2 {
            self.non_maskable_interrupt
        }         else if vector == 3 {
            self.breakpoint
        }         else if vector == 4 {
            self.overflow
        }         else if vector == 5 {
            self.bound_range_exceeded
        }         else if vector == 6 {
            self.invalid_opcode
        }         else if vector == 7 {
            self.device_not_available
        }         else if vector == 8 {
            self.double_fault
        }         else if vector == 9 {
            self.coprocessor_segment_overrun
        }         else if vector == 10 {
            self.invalid_tss
        }         else if vector == 11 {
            self.segment_not_present
        }         else if vector == 12 {
            self.stack_segment_fault
        }         else if vector == 13 {
            self.general_protection_fault
        }         else if vector == 14 {
            self.page_fault
        }         else if vector == 16 {
            self.x87_floating_point
        }         else if vector == 17 {
            self.alignment_check
        }         else if vector == 18 {
            self.machine_check
        }         else if vector == 19 {
            self.simd_floating_point
        }         else if vector == 20 {
            self.virtualization
        } else if vector == 30 {
            self.security_exception
        } else if vector == TIMER_VECTOR {
            self.pic_timer
        } else if vector == KEYBOARD_VECTOR {
            self.pic_keyboard
        } else if vector >= FIRST_FREE_VECTOR {
            self.system_call
        } else {
            self.unused
        }
    }

    /// Whether `vector` is one that the processor keeps for itself and never
    /// raises.
    pub open spec fn is_reserved(vector: int) -> bool {
        vector == 15 || 21 <= vector <= 29 || vector == 31
    }

    /// What the table holds for `vector`. The exceptions and the hardware interrupts are
    /// entered from the kernel only, the call into the kernel is open to user
    /// code, and the other gates are not present.
    pub open spec fn gate(self, code_segment: u16, vector: int) -> Descriptor {
        if Self::is_reserved(vector) {
            Descriptor::encoded(self.at(vector), 0, 0)
        } else if vector < FIRST_FREE_VECTOR {
            Descriptor::encoded(self.at(vector), code_segment, KERNEL_INTERRUPT_GATE)
        } else if vector == SYSTEM_CALL_VECTOR {
            Descriptor::encoded(self.at(vector), code_segment, USER_INTERRUPT_GATE)
        } else {
            Descriptor::encoded(self.at(vector), code_segment, 0)
        }
    }
}

/// The interrupt descriptor table.
#[derive(Debug)]
pub struct InterruptDescriptorTable {
    pub divide_error: Descriptor,
    pub debug: Descriptor,
    pub non_maskable_interrupt: Descriptor,
    pub breakpoint: Descriptor,
    pub overflow: Descriptor,
    pub bound_range_exceeded: Descriptor,
    pub invalid_opcode: Descriptor,
    pub device_not_available: Descriptor,
    pub double_fault: Descriptor,
    pub coprocessor_segment_overrun: Descriptor,
    pub invalid_tss: Descriptor,
    pub segment_not_present: Descriptor,
    pub stack_segment_fault: Descriptor,
    pub general_protection_fault: Descriptor,
    pub page_fault: Descriptor,
    pub reserved_1: Descriptor,
    pub x87_floating_point: Descriptor,
    pub alignment_check: Descriptor,
    pub machine_check: Descriptor,
    pub simd_floating_point: Descriptor,
    pub virtualization: Descriptor,
    pub reserved_2: [Descriptor; 9],
    pub security_exception: Descriptor,
    pub reserved_3: Descriptor,
    pub pic_timer: Descriptor,
    pub pic_keyboard: Descriptor,
    pub interrupts: [Descriptor; 226],
}

impl View for InterruptDescriptorTable {
    type V = Seq<Descriptor>;

    /// The gates by vector.
    open spec fn view(&self) -> Seq<Descriptor> {
        Seq::new(
            VECTOR_COUNT as nat,
            |vector: int|
                if vector == 0 {
                    self.divide_error
                }                 else if vector == 1 {
                    self.debug
                }                 else if vector == 2 {
                    self.non_maskable_interrupt
                }                 else if vector == 3 {
                    self.breakpoint
                }                 else if vector == 4 {
                    self.overflow
                }                 else if vector == 5 {
                    self.bound_range_exceeded
                }                 else if vector == 6 {
                    self.invalid_opcode
                }                 else if vector == 7 {
                    self.device_not_available
                }                 else if vector == 8 {
                    self.double_fault
                }                 else if vector == 9 {
                    self.coprocessor_segment_overrun
                }                 else if vector == 10 {
                    self.invalid_tss
                }                 else if vector == 11 {
                    self.segment_not_present
                }                 else if vector == 12 {
                    self.stack_segment_fault
                }                 else if vector == 13 {
                    self.general_protection_fault
                }                 else if vector == 14 {
                    self.page_fault
                }                 else if vector == 15 {
                    self.reserved_1
                }                 else if vector == 16 {
                    self.x87_floating_point
                }                 else if vector == 17 {
                    self.alignment_check
                }                 else if vector == 18 {
                    self.machine_check
                }                 else if vector == 19 {
                    self.simd_floating_point
                }                 else if vector == 20 {
                    self.virtualization
                } else if vector < 30 {
                    self.reserved_2[vector - 21]
                } else if vector == 30 {
                    self.security_exception
                } else if vector == 31 {
                    self.reserved_3
                } else if vector == 32 {
                    self.pic_timer
                } else if vector == 33 {
                    self.pic_keyboard
                } else {
                    self.interrupts[vector - 34]
                },
        )
    }
}

impl InterruptDescriptorTable {
    /// The table whose gates lead to `handlers`, entered in the code segment
    /// `code_segment`.
    pub fn new(code_segment: u16, handlers: &Handlers) -> (table: Self)
        ensures
            table@.len() == VECTOR_COUNT,
            forall|vector: int|
                0 <= vector < VECTOR_COUNT ==> #[trigger] table@[vector] == handlers.gate(
                    code_segment,
                    vector,
                ),
    {
        let mut idt = InterruptDescriptorTable {
            divide_error: Descriptor::new(handlers.divide_error, code_segment, 0b1000_1110),
            debug: Descriptor::new(handlers.debug, code_segment, 0b1000_1110),
            non_maskable_interrupt: Descriptor::new(handlers.non_maskable_interrupt, code_segment, 0b1000_1110),
            breakpoint: Descriptor::new(handlers.breakpoint, code_segment, 0b1000_1110),
            overflow: Descriptor::new(handlers.overflow, code_segment, 0b1000_1110),
            bound_range_exceeded: Descriptor::new(handlers.bound_range_exceeded, code_segment, 0b1000_1110),
            invalid_opcode: Descriptor::new(handlers.invalid_opcode, code_segment, 0b1000_1110),
            device_not_available: Descriptor::new(handlers.device_not_available, code_segment, 0b1000_1110),
            double_fault: Descriptor::new(handlers.double_fault, code_segment, 0b1000_1110),
            coprocessor_segment_overrun: Descriptor::new(handlers.coprocessor_segment_overrun, code_segment, 0b1000_1110),
            invalid_tss: Descriptor::new(handlers.invalid_tss, code_segment, 0b1000_1110),
            segment_not_present: Descriptor::new(handlers.segment_not_present, code_segment, 0b1000_1110),
            stack_segment_fault: Descriptor::new(handlers.stack_segment_fault, code_segment, 0b1000_1110),
            general_protection_fault: Descriptor::new(handlers.general_protection_fault, code_segment, 0b1000_1110),
            page_fault: Descriptor::new(handlers.page_fault, code_segment, 0b1000_1110),
            reserved_1: Descriptor::new(handlers.unused, 0, 0),
            x87_floating_point: Descriptor::new(handlers.x87_floating_point, code_segment, 0b1000_1110),
            alignment_check: Descriptor::new(handlers.alignment_check, code_segment, 0b1000_1110),
            machine_check: Descriptor::new(handlers.machine_check, code_segment, 0b1000_1110),
            simd_floating_point: Descriptor::new(handlers.simd_floating_point, code_segment, 0b1000_1110),
            virtualization: Descriptor::new(handlers.virtualization, code_segment, 0b1000_1110),
            reserved_2: [Descriptor::new(handlers.unused, 0, 0);9],
            security_exception: Descriptor::new(
                handlers.security_exception,
                code_segment,
                0b1000_1110,
            ),
            reserved_3: Descriptor::new(handlers.unused, 0, 0),
            pic_timer: Descriptor::new(handlers.pic_timer, code_segment, 0b1000_1110),
            pic_keyboard: Descriptor::new(handlers.pic_keyboard, code_segment, 0b1000_1110),
            interrupts: [Descriptor::new(handlers.system_call, code_segment, 0);226],
        };
        idt.interrupts[SYSTEM_CALL_VECTOR - FIRST_FREE_VECTOR] = Descriptor::new(
            handlers.system_call,
            code_segment,
            0b1110_1110,
        );
        idt
    }

    /// What the table holds for `vector`.
    pub fn gate(&self, vector: usize) -> (gate: Descriptor)
        requires
            vector < VECTOR_COUNT,
        ensures
            gate == self@[vector as int],
    {
        if vector == 0 {
            self.divide_error
        }         else if vector == 1 {
            self.debug
        }         else if vector == 2 {
            self.non_maskable_interrupt
        }         else if vector == 3 {
            self.breakpoint
        }         else if vector == 4 {
            self.overflow
        }         else if vector == 5 {
            self.bound_range_exceeded
        }         else if vector == 6 {
            self.invalid_opcode
        }         else if vector == 7 {
            self.device_not_available
        }         else if vector == 8 {
            self.double_fault
        }         else if vector == 9 {
            self.coprocessor_segment_overrun
        }         else if vector == 10 {
            self.invalid_tss
        }         else if vector == 11 {
            self.segment_not_present
        }         else if vector == 12 {
            self.stack_segment_fault
        }         else if vector == 13 {
            self.general_protection_fault
        }         else if vector == 14 {
            self.page_fault
        }         else if vector == 15 {
            self.reserved_1
        }         else if vector == 16 {
            self.x87_floating_point
        }         else if vector == 17 {
            self.alignment_check
        }         else if vector == 18 {
            self.machine_check
        }         else if vector == 19 {
            self.simd_floating_point
        }         else if vector == 20 {
            self.virtualization
        } else if vector < 30 {
            self.reserved_2[vector - 21]
        } else if vector == 30 {
            self.security_exception
        } else if vector == 31 {
            self.reserved_3
        } else if vector == 32 {
            self.pic_timer
        } else if vector == 33 {
            self.pic_keyboard
        } else {
            self.interrupts[vector - 34]
        }
    }

    /// What the processor is told to make it use the table, once the table
    /// lies at `address`.
    pub fn pointer(address: u32) -> (pointer: DescriptorTablePointer)
        ensures
            pointer.size == VECTOR_COUNT * 8 - 1,
            pointer.address == address,
    {
        DescriptorTablePointer { size: 2079, address }
    }
}

} // verus!
