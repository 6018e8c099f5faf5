use kernel_core::frame_allocator::FrameAllocator;
use kernel_core::page_mapper::create_initial_page_directory;
use kernel_core::scheduler::{
    schedule_next_task, GeneralPurposeRegisters, InterruptStackFrame, Registers, Scheduler, Task,
};

fn user_registers(eip: u32, esp: u32) -> Registers {
    Registers {
        cs: 27,
        ss: 35,
        eflags: 0,
        eip,
        esp,
        ebp: 0,
        eax: 0,
        ebx: 0,
        ecx: 0,
        edx: 0,
        esi: 0,
        edi: 0,
    }
}

fn scheduler_of(entries: &[u32]) -> Scheduler {
    let mut allocator = FrameAllocator::new();
    let mut scheduler = Scheduler::new();
    for (i, entry) in entries.iter().enumerate() {
        let space = create_initial_page_directory(&mut allocator);
        let registers = user_registers(*entry, 0x9000 + 0x100 * i as u32);
        scheduler.ready_tasks.push(Box::new(Task::new(registers, space)));
    }
    scheduler
}

fn no_registers() -> GeneralPurposeRegisters {
    GeneralPurposeRegisters { edi: 0, esi: 0, ebp: 0, esp: 0, ebx: 0, edx: 0, ecx: 0, eax: 0 }
}

#[test]
fn new_scheduler_has_no_tasks() {
    let scheduler = Scheduler::new();
    assert_eq!(scheduler.ready_tasks.len(), 0);
    assert_eq!(scheduler.task_index, 0);
}

#[test]
fn default_registers_are_zero() {
    let registers = Registers::default();
    assert_eq!(registers, Registers { cs: 0, ss: 0, ..user_registers(0, 0) });
}

#[test]
fn task_keeps_its_registers_and_address_space() {
    let mut allocator = FrameAllocator::new();
    allocator.mark_occupied(0);
    let space = create_initial_page_directory(&mut allocator);
    let task = Task::new(user_registers(0x1000, 0x8000), space);
    assert_eq!(task.registers.eip, 0x1000);
    assert_eq!(task.registers.esp, 0x8000);
    assert_eq!(task.address_space.address(), 0x1000);
}

#[test]
fn registers_split_into_stack_frame_and_general_purpose() {
    let registers = Registers {
        cs: 1,
        ss: 2,
        eflags: 3,
        eip: 4,
        esp: 5,
        ebp: 6,
        eax: 7,
        ebx: 8,
        ecx: 9,
        edx: 10,
        esi: 11,
        edi: 12,
    };
    assert_eq!(
        registers.get_interrupt_stack_frame(),
        InterruptStackFrame { ip: 4, cs: 1, flags: 3, sp: 5, ss: 2 }
    );
    assert_eq!(
        registers.get_general_purpose_registers(),
        GeneralPurposeRegisters {
            edi: 12,
            esi: 11,
            ebp: 6,
            esp: 5,
            ebx: 8,
            edx: 10,
            ecx: 9,
            eax: 7
        }
    );
}

#[test]
fn two_tasks_take_turns() {
    let mut scheduler = scheduler_of(&[0x1000, 0x2000]);
    let mut frame = scheduler.ready_tasks[0].registers.get_interrupt_stack_frame();
    let mut gpr = scheduler.ready_tasks[0].registers.get_general_purpose_registers();
    assert_eq!(frame.ip, 0x1000);
    schedule_next_task(&mut scheduler, &mut frame, &mut gpr);
    assert_eq!(frame.ip, 0x2000);
    assert_eq!(scheduler.task_index, 1);
    schedule_next_task(&mut scheduler, &mut frame, &mut gpr);
    assert_eq!(frame.ip, 0x1000);
    assert_eq!(scheduler.task_index, 0);
}

#[test]
fn switch_returns_the_directory_of_the_next_task() {
    let mut scheduler = scheduler_of(&[0x1000, 0x2000, 0x3000]);
    let mut frame = scheduler.ready_tasks[0].registers.get_interrupt_stack_frame();
    let mut gpr = no_registers();
    assert_eq!(schedule_next_task(&mut scheduler, &mut frame, &mut gpr), 0x2000);
    assert_eq!(schedule_next_task(&mut scheduler, &mut frame, &mut gpr), 0x4000);
    assert_eq!(schedule_next_task(&mut scheduler, &mut frame, &mut gpr), 0x0000);
    assert_eq!(scheduler.ready_tasks[1].address_space.address(), 0x2000);
}

#[test]
fn round_robin_visits_each_task_once_per_round() {
    let tasks = 5;
    let entries: Vec<u32> = (0..tasks).map(|i| 0x1000 * (i as u32 + 1)).collect();
    let mut scheduler = scheduler_of(&entries);
    let mut frame = scheduler.ready_tasks[0].registers.get_interrupt_stack_frame();
    let mut gpr = no_registers();
    let mut interrupted: Vec<usize> = Vec::new();
    let mut selected: Vec<usize> = Vec::new();
    for _ in 0..tasks {
        interrupted.push(scheduler.task_index);
        schedule_next_task(&mut scheduler, &mut frame, &mut gpr);
        selected.push(scheduler.task_index);
    }
    assert_eq!(interrupted, vec![0, 1, 2, 3, 4]);
    assert_eq!(selected, vec![1, 2, 3, 4, 0]);
    assert_eq!(scheduler.task_index, 0);
    schedule_next_task(&mut scheduler, &mut frame, &mut gpr);
    assert_eq!(scheduler.task_index, 1);
    assert_eq!(frame.ip, 0x2000);
}

#[test]
fn single_task_resumes_itself() {
    let mut scheduler = scheduler_of(&[0x1000]);
    let mut frame = InterruptStackFrame { ip: 0x1234, cs: 27, flags: 0x202, sp: 0x7000, ss: 35 };
    let mut gpr = GeneralPurposeRegisters {
        edi: 1,
        esi: 2,
        ebp: 3,
        esp: 0xAAAA,
        ebx: 5,
        edx: 6,
        ecx: 7,
        eax: 8,
    };
    schedule_next_task(&mut scheduler, &mut frame, &mut gpr);
    assert_eq!(scheduler.task_index, 0);
    assert_eq!(frame, InterruptStackFrame { ip: 0x1234, cs: 27, flags: 0x202, sp: 0x7000, ss: 35 });
    assert_eq!(gpr.esp, 0x7000);
    assert_eq!((gpr.edi, gpr.esi, gpr.ebp, gpr.ebx, gpr.edx, gpr.ecx, gpr.eax), (1, 2, 3, 5, 6, 7, 8));
    assert_eq!(scheduler.ready_tasks[0].registers.eip, 0x1234);
    assert_eq!(scheduler.ready_tasks[0].registers.eflags, 0x202);
}

#[test]
fn switch_saves_the_interrupted_task() {
    let mut scheduler = scheduler_of(&[0x1000, 0x2000]);
    let mut frame = InterruptStackFrame { ip: 0x1111, cs: 27, flags: 0x246, sp: 0x7ff0, ss: 35 };
    let mut gpr = GeneralPurposeRegisters {
        edi: 0xD1,
        esi: 0x51,
        ebp: 0xB9,
        esp: 0x59,
        ebx: 0xB0,
        edx: 0xD0,
        ecx: 0xC0,
        eax: 0xA0,
    };
    schedule_next_task(&mut scheduler, &mut frame, &mut gpr);
    assert_eq!(
        scheduler.ready_tasks[0].registers,
        Registers {
            cs: 27,
            ss: 35,
            eflags: 0x246,
            eip: 0x1111,
            esp: 0x7ff0,
            ebp: 0xB9,
            eax: 0xA0,
            ebx: 0xB0,
            ecx: 0xC0,
            edx: 0xD0,
            esi: 0x51,
            edi: 0xD1,
        }
    );
    assert_eq!(frame, InterruptStackFrame { ip: 0x2000, cs: 27, flags: 0, sp: 0x9100, ss: 35 });
    assert_eq!(
        gpr,
        GeneralPurposeRegisters { edi: 0, esi: 0, ebp: 0, esp: 0x9100, ebx: 0, edx: 0, ecx: 0, eax: 0 }
    );
}

#[test]
fn task_comes_back_with_the_registers_it_left_with() {
    let mut scheduler = scheduler_of(&[0x1000, 0x2000, 0x3000]);
    let left = InterruptStackFrame { ip: 0x1abc, cs: 27, flags: 0x0000_0297, sp: 0x6ff8, ss: 35 };
    let mut frame = left;
    let mut gpr = GeneralPurposeRegisters {
        edi: 11,
        esi: 12,
        ebp: 13,
        esp: 14,
        ebx: 15,
        edx: 16,
        ecx: 17,
        eax: 18,
    };
    schedule_next_task(&mut scheduler, &mut frame, &mut gpr);
    let saved = scheduler.ready_tasks[0].registers;
    frame.ip += 8;
    gpr.eax = 99;
    schedule_next_task(&mut scheduler, &mut frame, &mut gpr);
    frame.flags = 0x202;
    schedule_next_task(&mut scheduler, &mut frame, &mut gpr);
    assert_eq!(scheduler.task_index, 0);
    assert_eq!(frame, left);
    assert_eq!(frame.ip, 0x1abc);
    assert_eq!(frame.flags, 0x0000_0297);
    assert_eq!(
        gpr,
        GeneralPurposeRegisters {
            edi: 11,
            esi: 12,
            ebp: 13,
            esp: 0x6ff8,
            ebx: 15,
            edx: 16,
            ecx: 17,
            eax: 18
        }
    );
    assert_eq!(scheduler.ready_tasks[0].registers, saved);
    assert_eq!(scheduler.ready_tasks[1].registers.eip, 0x2008);
    assert_eq!(scheduler.ready_tasks[1].registers.eax, 99);
    assert_eq!(scheduler.ready_tasks[2].registers.eflags, 0x202);
}

#[test]
fn user_task_starts_in_the_user_segments() {
    assert_eq!(Registers::user(0x0040_0000, 0x7000), user_registers(0x0040_0000, 0x7000));
    assert_eq!(Registers::user(1, 2).cs, 27);
    assert_eq!(Registers::user(1, 2).ss, 35);
}
