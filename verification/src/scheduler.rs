//! Tasks and the round-robin scheduler that switches between them on each
//! timer tick.
//!
//! A switch rewrites the registers that the interrupt saved, so that the
//! return from the interrupt resumes another task than the one it came from.

use vstd::prelude::*;
use vstd::arithmetic::div_mod::{lemma_mod_multiples_vanish, lemma_small_mod};
use crate::gdt::{USER_CODE_SELECTOR, USER_DATA_SELECTOR};
use crate::page_mapper::AddressSpace;

verus! {

/// The registers that the processor saves on the stack when an interrupt
/// arrives, and restores from there when the handler returns.
#[derive(Debug, Clone, Copy, PartialEq, Eq, Structural)]
pub struct InterruptStackFrame {
    pub ip: u32,
    pub cs: u32,
    pub flags: u32,
    pub sp: u32,
    pub ss: u32,
}

/// The general-purpose registers, in the order in which the interrupt entry
/// saves them.
#[derive(Debug, Clone, Copy, PartialEq, Eq, Structural)]
pub struct GeneralPurposeRegisters {
    pub edi: u32,
    pub esi: u32,
    pub ebp: u32,
    pub esp: u32,
    pub ebx: u32,
    pub edx: u32,
    pub ecx: u32,
    pub eax: u32,
}

/// The registers of a task that is not running, as they were when control
/// left the task.
#[derive(Debug, Clone, Copy, PartialEq, Eq, Structural)]
pub struct Registers {
    pub cs: u32,
    pub ss: u32,
    pub eflags: u32,
    pub eip: u32,
    pub esp: u32,
    pub ebp: u32,
    pub eax: u32,
    pub ebx: u32,
    pub ecx: u32,
    pub edx: u32,
    pub esi: u32,
    pub edi: u32,
}

impl Default for Registers {
    fn default() -> (registers: Self)
        ensures
            registers == Registers::cleared(),
    {
        Registers {
            cs: 0,
            ss: 0,
            eflags: 0,
            eip: 0,
            esp: 0,
            ebp: 0,
            eax: 0,
            ebx: 0,
            ecx: 0,
            edx: 0,
            esi: 0,
            edi: 0,
        }
    }
}

impl Registers {
    /// The registers with every one of them zero.
    pub open spec fn cleared() -> Registers {
        Registers {
            cs: 0,
            ss: 0,
            eflags: 0,
            eip: 0,
            esp: 0,
            ebp: 0,
            eax: 0,
            ebx: 0,
            ecx: 0,
            edx: 0,
            esi: 0,
            edi: 0,
        }
    }

    /// The registers of a user task that has not run yet: it starts at `eip`
    /// with its stack at `esp`, in the code and data segments of user code, and
    /// every other register is zero.
    pub open spec fn at_start(eip: u32, esp: u32) -> Registers {
        Registers {
            cs: USER_CODE_SELECTOR as u32,
            ss: USER_DATA_SELECTOR as u32,
            eip,
            esp,
            ..Registers::cleared()
        }
    }

    /// The registers of a user task that has not run yet.
    pub fn user(eip: u32, esp: u32) -> (registers: Registers)
        ensures
            registers == Registers::at_start(eip, esp),
    {
        Registers {
            cs: USER_CODE_SELECTOR as u32,
            ss: USER_DATA_SELECTOR as u32,
            eflags: 0,
            eip,
            esp,
            ebp: 0,
            eax: 0,
            ebx: 0,
            ecx: 0,
            edx: 0,
            esi: 0,
            edi: 0,
        }
    }

    /// The registers of the task that an interrupt came from, given what the
    /// processor and the interrupt entry saved. The stack pointer is the
    /// task's own, from the interrupt stack frame; the one saved with the
    /// general-purpose registers is that of the handler and is left out.
    pub open spec fn captured(frame: InterruptStackFrame, gpr: GeneralPurposeRegisters) -> Registers {
        Registers {
            cs: frame.cs,
            ss: frame.ss,
            eflags: frame.flags,
            eip: frame.ip,
            esp: frame.sp,
            ebp: gpr.ebp,
            eax: gpr.eax,
            ebx: gpr.ebx,
            ecx: gpr.ecx,
            edx: gpr.edx,
            esi: gpr.esi,
            edi: gpr.edi,
        }
    }

    /// What the return from the interrupt has to find on the stack to resume
    /// the task.
    pub open spec fn stack_frame(self) -> InterruptStackFrame {
        InterruptStackFrame {
            ip: self.eip,
            cs: self.cs,
            flags: self.eflags,
            sp: self.esp,
            ss: self.ss,
        }
    }

    /// What the interrupt exit has to find saved to resume the task.
    pub open spec fn general_purpose(self) -> GeneralPurposeRegisters {
        GeneralPurposeRegisters {
            edi: self.edi,
            esi: self.esi,
            ebp: self.ebp,
            esp: self.esp,
            ebx: self.ebx,
            edx: self.edx,
            ecx: self.ecx,
            eax: self.eax,
        }
    }

    /// What the return from the interrupt has to find on the stack to resume
    /// the task.
    pub fn get_interrupt_stack_frame(&self) -> (frame: InterruptStackFrame)
        ensures
            frame == self.stack_frame(),
    {
        InterruptStackFrame {
            ip: self.eip,
            cs: self.cs,
            flags: self.eflags,
            sp: self.esp,
            ss: self.ss,
        }
    }

    /// What the interrupt exit has to find saved to resume the task.
    pub fn get_general_purpose_registers(&self) -> (gpr: GeneralPurposeRegisters)
        ensures
            gpr == self.general_purpose(),
    {
        GeneralPurposeRegisters {
            edi: self.edi,
            esi: self.esi,
            ebp: self.ebp,
            esp: self.esp,
            ebx: self.ebx,
            edx: self.edx,
            ecx: self.ecx,
            eax: self.eax,
        }
    }

    /// Registers that are saved and restored come back as they were saved:
    /// what is captured from the restored frame and general-purpose registers
    /// is the registers themselves.
    pub proof fn lemma_restore_then_capture(self)
        ensures
            Registers::captured(self.stack_frame(), self.general_purpose()) == self,
    {
    }

    /// A task that is captured and restored resumes with the interrupt stack
    /// frame it was interrupted with, and with its general-purpose registers
    /// but for the saved stack pointer, which becomes the task's own.
    pub proof fn lemma_capture_then_restore(frame: InterruptStackFrame, gpr: GeneralPurposeRegisters)
        ensures
            Registers::captured(frame, gpr).stack_frame() == frame,
            Registers::captured(frame, gpr).general_purpose() == (GeneralPurposeRegisters {
                esp: frame.sp,
                ..gpr
            }),
    {
    }
}

/// A program that runs in an address space of its own.
pub struct Task {
    pub registers: Registers,
    pub address_space: AddressSpace,
}

impl Task {
    /// A task that starts with `registers` in `address_space`.
    pub fn new(registers: Registers, address_space: AddressSpace) -> (task: Self)
        ensures
            task.registers == registers,
            task.address_space == address_space,
    {
        Self { registers, address_space }
    }
}

/// The tasks that take turns, and which of them is running.
pub struct Scheduler {
    pub ready_tasks: Vec<Box<Task>>,
    pub task_index: usize,
}

/// The registers on both sides of a task switch: those of the tasks that wait,
/// which task runs, and what the interrupt saved of it.
pub struct Machine {
    pub registers: Seq<Registers>,
    pub running: int,
    pub frame: InterruptStackFrame,
    pub gpr: GeneralPurposeRegisters,
}

impl Machine {
    /// There is a running task.
    pub open spec fn wf(self) -> bool {
        0 <= self.running < self.registers.len()
    }

    /// The machine after one switch: the running task's registers are put
    /// away, the next task in order runs, the first after the last, and its
    /// registers take the place of the saved ones.
    pub open spec fn switched(self) -> Machine {
        let saved = self.registers.update(self.running, Registers::captured(self.frame, self.gpr));
        let next = (self.running + 1) % (self.registers.len() as int);
        Machine {
            registers: saved,
            running: next,
            frame: saved[next].stack_frame(),
            gpr: saved[next].general_purpose(),
        }
    }

    /// The machine after `count` switches with nothing run in between.
    pub open spec fn switched_times(self, count: nat) -> Machine
        decreases count,
    {
        if count == 0 {
            self
        } else {
            self.switched_times((count - 1) as nat).switched()
        }
    }

    /// Round-robin order: after `count` switches the task that runs is the one
    /// `count` places after the first, counted round the tasks. So a round of
    /// as many switches as there are tasks interrupts each task once, in
    /// order, and the switch after the round interrupts the first task again.
    pub proof fn lemma_round_robin(self, count: nat)
        requires
            self.wf(),
        ensures
            self.switched_times(count).wf(),
            self.switched_times(count).registers.len() == self.registers.len(),
            self.switched_times(count).running == (self.running + count) % (
            self.registers.len() as int),
        decreases count,
    {
        let tasks = self.registers.len() as int;
        if count == 0 {
            lemma_small_mod(self.running as nat, tasks as nat);
        } else {
            self.lemma_round_robin((count - 1) as nat);
            let before = self.switched_times((count - 1) as nat);
            lemma_successor_round(self.running + count - 1, tasks);
        }
    }

    /// Within one round no task has a second turn: switches that are less
    /// than a round apart leave different tasks running.
    pub proof fn lemma_turns_differ(self, earlier: nat, later: nat)
        requires
            self.wf(),
            earlier < later < earlier + self.registers.len(),
        ensures
            self.switched_times(earlier).running != self.switched_times(later).running,
    {
        let tasks = self.registers.len() as int;
        self.lemma_round_robin(earlier);
        self.lemma_round_robin(later);
        lemma_round_offsets_differ(self.running + earlier, later - earlier, tasks);
    }

    /// A task comes back as it left: after a round of as many switches as
    /// there are tasks, the first task runs again, with the interrupt stack
    /// frame it was interrupted with, instruction pointer and flags among
    /// them, and with its general-purpose registers but for the saved stack
    /// pointer, which is the task's own.
    pub proof fn lemma_round_trip(self)
        requires
            self.wf(),
        ensures
            self.switched_times(self.registers.len()).running == self.running,
            self.switched_times(self.registers.len()).frame == self.frame,
            self.switched_times(self.registers.len()).gpr == (GeneralPurposeRegisters {
                esp: self.frame.sp,
                ..self.gpr
            }),
    {
        let tasks = self.registers.len();
        self.lemma_kept_while_waiting(tasks);
        self.lemma_round_robin(tasks);
        lemma_mod_multiples_vanish(1, self.running, tasks as int);
        lemma_small_mod(self.running as nat, tasks);
        let last = self.switched_times((tasks - 1) as nat);
        self.lemma_round_robin((tasks - 1) as nat);
        if tasks > 1 {
            self.lemma_kept_while_waiting((tasks - 1) as nat);
            self.lemma_turns_differ(0, (tasks - 1) as nat);
        }
    }

    /// From the first switch until its next turn, the registers of the task
    /// that was interrupted stay as they were captured.
    pub proof fn lemma_kept_while_waiting(self, count: nat)
        requires
            self.wf(),
            1 <= count <= self.registers.len(),
        ensures
            self.switched_times(count).registers[self.running] == Registers::captured(
                self.frame,
                self.gpr,
            ),
        decreases count,
    {
        self.lemma_round_robin((count - 1) as nat);
        if count > 1 {
            self.lemma_kept_while_waiting((count - 1) as nat);
            self.lemma_turns_differ(0, (count - 1) as nat);
        }
    }
}

/// One place on, counted round `tasks` places, from `place` counted round.
proof fn lemma_successor_round(place: int, tasks: int)
    requires
        0 <= place,
        0 < tasks,
    ensures
        (place % tasks + 1) % tasks == (place + 1) % tasks,
{
    vstd::arithmetic::div_mod::lemma_add_mod_noop(place, 1, tasks);
    if tasks == 1 {
        assert((place % tasks + 1) % tasks == 0);
        assert((place + 1) % tasks == 0);
    } else {
        lemma_small_mod(1, tasks as nat);
    }
}

/// Places less than a round apart are different places.
proof fn lemma_round_offsets_differ(place: int, offset: int, tasks: int)
    requires
        0 <= place,
        0 < offset < tasks,
    ensures
        place % tasks != (place + offset) % tasks,
{
    vstd::arithmetic::div_mod::lemma_fundamental_div_mod(place, tasks);
    vstd::arithmetic::div_mod::lemma_fundamental_div_mod(place + offset, tasks);
    let q1 = place / tasks;
    let q2 = (place + offset) / tasks;
    if place % tasks == (place + offset) % tasks {
        assert(tasks * q2 - tasks * q1 == offset);
        assert(tasks * (q2 - q1) == offset) by (nonlinear_arith)
            requires
                tasks * q2 - tasks * q1 == offset,
        ;
        assert(false) by (nonlinear_arith)
            requires
                tasks * (q2 - q1) == offset,
                0 < offset < tasks,
        ;
    }
}

impl Scheduler {
    /// A scheduler without tasks. Tasks are added to `ready_tasks` before the
    /// first switch.
    pub fn new() -> (scheduler: Self)
        ensures
            scheduler.ready_tasks@.len() == 0,
            scheduler.task_index == 0,
    {
        Self { ready_tasks: Vec::new(), task_index: 0 }
    }

    /// The registers of the tasks as they were last put away, in order.
    pub open spec fn registers(&self) -> Seq<Registers> {
        Seq::new(self.ready_tasks@.len(), |i: int| self.ready_tasks@[i].registers)
    }

    /// There is a task, and `task_index` names one.
    pub open spec fn wf(&self) -> bool {
        self.task_index < self.ready_tasks@.len()
    }

    /// The scheduler together with what an interrupt saved of the running
    /// task.
    pub open spec fn machine(&self, frame: InterruptStackFrame, gpr: GeneralPurposeRegisters) -> Machine {
        Machine { registers: self.registers(), running: self.task_index as int, frame, gpr }
    }
}

/// Switches to the next task, from inside the timer interrupt.
///
/// The interrupted task's registers, as saved in `frame` and `gpr`, are put
/// away with the task. The next task in order becomes the running one, and its
/// registers are written over `frame` and `gpr`, so that the return from the
/// interrupt resumes it where it was interrupted. The result is the address of
/// the page directory of that task, which the caller makes the processor's
/// translation base before it returns from the interrupt.
pub fn schedule_next_task(
    scheduler: &mut Scheduler,
    frame: &mut InterruptStackFrame,
    gpr: &mut GeneralPurposeRegisters,
) -> (directory: u32)
    requires
        old(scheduler).wf(),
    ensures
        final(scheduler).wf(),
        final(scheduler).ready_tasks@.len() == old(scheduler).ready_tasks@.len(),
        final(scheduler).task_index == (old(scheduler).task_index + 1) % (old(
            scheduler,
        ).ready_tasks@.len() as int),
        forall|i: int|
            0 <= i < old(scheduler).ready_tasks@.len() ==> (#[trigger] final(scheduler)
                .ready_tasks@[i]).registers == if i == old(scheduler).task_index {
                Registers::captured(*old(frame), *old(gpr))
            } else {
                old(scheduler).ready_tasks@[i].registers
            },
        forall|i: int|
            0 <= i < old(scheduler).ready_tasks@.len() ==> (#[trigger] final(scheduler)
                .ready_tasks@[i]).address_space == old(scheduler).ready_tasks@[i].address_space,
        *final(frame) == final(scheduler).ready_tasks@[final(scheduler).task_index as int]
            .registers.stack_frame(),
        *final(gpr) == final(scheduler).ready_tasks@[final(scheduler).task_index as int]
            .registers.general_purpose(),
        directory == final(scheduler).ready_tasks@[final(scheduler).task_index as int]
            .address_space@.address,
        final(scheduler).machine(*final(frame), *final(gpr)) == old(scheduler).machine(
            *old(frame),
            *old(gpr),
        ).switched(),
{
    let task_index = scheduler.task_index;
    scheduler.ready_tasks[task_index].registers = Registers {
        cs: frame.cs,
        ss: frame.ss,
        eflags: frame.flags,
        eip: frame.ip,
        esp: frame.sp,
        ebp: gpr.ebp,
        eax: gpr.eax,
        ebx: gpr.ebx,
        ecx: gpr.ecx,
        edx: gpr.edx,
        esi: gpr.esi,
        edi: gpr.edi,
    };
    let tasks = scheduler.ready_tasks.len();
    scheduler.task_index = (scheduler.task_index + 1) % tasks;
    let next_task = &scheduler.ready_tasks[scheduler.task_index];
    *frame = next_task.registers.get_interrupt_stack_frame();
    *gpr = next_task.registers.get_general_purpose_registers();
    proof {
        assert(scheduler.registers() =~= old(scheduler).registers().update(
            task_index as int,
            Registers::captured(*old(frame), *old(gpr)),
        ));
    }
    next_task.address_space.address()
}

} // verus!
