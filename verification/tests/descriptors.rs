use kernel_core::gdt::{
    selector, Descriptor, DescriptorTablePointer, GlobalDescriptorTable, KERNEL_CODE_SELECTOR,
    KERNEL_DATA_SELECTOR, TSS_SELECTOR, USER_CODE_SELECTOR, USER_DATA_SELECTOR,
};
use kernel_core::idt::{Handlers, InterruptDescriptorTable, StackFrame, SYSTEM_CALL_VECTOR};
use kernel_core::tss::{TaskStateSegment, TSS_SIZE};

fn handlers() -> Handlers {
    Handlers {
        divide_error: 0x0010_0000,
        debug: 0x0010_0010,
        non_maskable_interrupt: 0x0010_0020,
        breakpoint: 0x0010_0030,
        overflow: 0x0010_0040,
        bound_range_exceeded: 0x0010_0050,
        invalid_opcode: 0x0010_0060,
        device_not_available: 0x0010_0070,
        double_fault: 0x0010_0080,
        coprocessor_segment_overrun: 0x0010_0090,
        invalid_tss: 0x0010_00A0,
        segment_not_present: 0x0010_00B0,
        stack_segment_fault: 0x0010_00C0,
        general_protection_fault: 0x0010_00D0,
        page_fault: 0x0010_00E0,
        x87_floating_point: 0x0010_0100,
        alignment_check: 0x0010_0110,
        machine_check: 0x0010_0120,
        simd_floating_point: 0x0010_0130,
        virtualization: 0x0010_0140,
        security_exception: 0x0010_01E0,
        unused: 0x0020_FFF0,
        pic_timer: 0x0030_0200,
        pic_keyboard: 0x0030_0210,
        system_call: 0xABCD_1234,
    }
}

#[test]
fn selectors_are_index_and_privilege() {
    assert_eq!(selector(1, 0), KERNEL_CODE_SELECTOR);
    assert_eq!(selector(2, 0), KERNEL_DATA_SELECTOR);
    assert_eq!(selector(3, 3), USER_CODE_SELECTOR);
    assert_eq!(selector(4, 3), USER_DATA_SELECTOR);
    assert_eq!(selector(5, 3), TSS_SELECTOR);
    assert_eq!(selector(3, 3), 27);
    assert_eq!(selector(4, 3), 35);
    assert_eq!(selector(8191, 3), 0xFFFB);
}

#[test]
fn segment_descriptor_cuts_base_and_limit() {
    let descriptor = Descriptor::new(0x1234_5678, 0x000A_BCDE, 0x9A, 0xC);
    assert_eq!(
        descriptor,
        Descriptor {
            limit_lo: 0xBCDE,
            base_lo: 0x5678,
            base_mi: 0x34,
            access: 0x9A,
            flags_and_limit_hi: 0xCA,
            base_hi: 0x12,
        }
    );
}

#[test]
fn segment_descriptor_keeps_the_low_four_flag_bits() {
    let descriptor = Descriptor::new(0, 104, 0x89, 0x40);
    assert_eq!(descriptor.flags_and_limit_hi, 0x00);
    assert_eq!(descriptor.limit_lo, 104);
    let descriptor = Descriptor::new(0, 0xFFFFF, 0x92, 0xFC);
    assert_eq!(descriptor.flags_and_limit_hi, 0xCF);
}

#[test]
fn global_table_holds_the_flat_segments() {
    let table = GlobalDescriptorTable::new(0x0012_3456, TSS_SIZE);
    let flat = |access: u8| Descriptor {
        limit_lo: 0xFFFF,
        base_lo: 0,
        base_mi: 0,
        access,
        flags_and_limit_hi: 0xCF,
        base_hi: 0,
    };
    assert_eq!(
        table.null_descriptor,
        Descriptor {
            limit_lo: 0,
            base_lo: 0,
            base_mi: 0,
            access: 0,
            flags_and_limit_hi: 0,
            base_hi: 0
        }
    );
    assert_eq!(table.code_segment, flat(0x9A));
    assert_eq!(table.data_segment, flat(0x92));
    assert_eq!(table.user_code_segment, flat(0xFA));
    assert_eq!(table.user_data_segment, flat(0xF2));
    assert_eq!(
        table.tss_segment,
        Descriptor {
            limit_lo: 104,
            base_lo: 0x3456,
            base_mi: 0x12,
            access: 0x89,
            flags_and_limit_hi: 0,
            base_hi: 0
        }
    );
}

#[test]
fn global_table_pointer_and_task_register() {
    assert_eq!(
        GlobalDescriptorTable::pointer(0x0020_0000),
        DescriptorTablePointer { size: 47, address: 0x0020_0000 }
    );
    assert_eq!(GlobalDescriptorTable::tss_selector(), 43);
}

#[test]
fn task_state_segment_names_the_kernel_stack_segment() {
    let tss = TaskStateSegment::new();
    assert_eq!(tss._unused1, 0);
    assert_eq!(tss.esp0, 0);
    assert_eq!(tss.ss0, 0x10);
    assert_eq!(tss._unused2, [0u32; 22]);
    assert_eq!(tss.iopb, 104);
    assert_eq!(TSS_SIZE, 4 + 4 + 4 + 22 * 4 + 4);
}

#[test]
fn gate_cuts_the_handler_address() {
    let gate = kernel_core::idt::Descriptor::new(0xABCD_1234, 8, 0x8E);
    assert_eq!(
        gate,
        kernel_core::idt::Descriptor {
            handler_address_low: 0x1234,
            segment_selector: 8,
            zero: 0,
            type_and_attributes: 0x8E,
            handler_address_high: 0xABCD,
        }
    );
}

#[test]
fn interrupt_table_leads_to_the_handlers() {
    let handlers = handlers();
    let table = InterruptDescriptorTable::new(8, &handlers);
    assert_eq!(table.divide_error, kernel_core::idt::Descriptor::new(0x0010_0000, 8, 0x8E));
    assert_eq!(table.page_fault, kernel_core::idt::Descriptor::new(0x0010_00E0, 8, 0x8E));
    assert_eq!(table.gate(0), table.divide_error);
    assert_eq!(table.gate(8), kernel_core::idt::Descriptor::new(0x0010_0080, 8, 0x8E));
    assert_eq!(table.gate(14), table.page_fault);
    assert_eq!(table.gate(20), kernel_core::idt::Descriptor::new(0x0010_0140, 8, 0x8E));
    assert_eq!(table.gate(30), kernel_core::idt::Descriptor::new(0x0010_01E0, 8, 0x8E));
    assert_eq!(table.gate(32), kernel_core::idt::Descriptor::new(0x0030_0200, 8, 0x8E));
    assert_eq!(table.gate(33), kernel_core::idt::Descriptor::new(0x0030_0210, 8, 0x8E));
}

#[test]
fn reserved_vectors_are_not_present() {
    let handlers = handlers();
    let table = InterruptDescriptorTable::new(8, &handlers);
    let unused = kernel_core::idt::Descriptor::new(0x0020_FFF0, 0, 0);
    assert_eq!(table.gate(15), unused);
    for vector in 21..30 {
        assert_eq!(table.gate(vector), unused);
    }
    assert_eq!(table.gate(31), unused);
}

#[test]
fn system_call_is_open_to_user_code() {
    let handlers = handlers();
    let table = InterruptDescriptorTable::new(8, &handlers);
    assert_eq!(SYSTEM_CALL_VECTOR, 0x80);
    assert_eq!(table.gate(128), kernel_core::idt::Descriptor::new(0xABCD_1234, 8, 0xEE));
    assert_eq!(table.interrupts[94].type_and_attributes, 0b1110_1110);
    assert_eq!(table.gate(34), kernel_core::idt::Descriptor::new(0xABCD_1234, 8, 0));
    assert_eq!(table.gate(127), kernel_core::idt::Descriptor::new(0xABCD_1234, 8, 0));
    assert_eq!(table.gate(129), kernel_core::idt::Descriptor::new(0xABCD_1234, 8, 0));
    assert_eq!(table.gate(259), kernel_core::idt::Descriptor::new(0xABCD_1234, 8, 0));
}

#[test]
fn interrupt_table_pointer() {
    assert_eq!(
        InterruptDescriptorTable::pointer(0x0030_0000),
        DescriptorTablePointer { size: 2079, address: 0x0030_0000 }
    );
}

#[test]
fn stack_frame_holds_what_the_processor_saved() {
    let frame = StackFrame { ip: 1, cs: 2, flags: 3, sp: 4, ds: 5 };
    assert_eq!(frame, StackFrame { ip: 1, cs: 2, flags: 3, sp: 4, ds: 5 });
    assert_eq!((frame.ip, frame.cs, frame.flags, frame.sp, frame.ds), (1, 2, 3, 4, 5));
}
