//! The two 8259 interrupt controllers: the vectors they raise, and the end of
//! an interrupt.

use vstd::prelude::*;
use crate::io::PortCommand;

verus! {

/// The command port of the first controller.
pub const PIC1_CMD: u16 = 0x20;

/// The command port of the second controller.
pub const PIC2_CMD: u16 = 0xA0;

/// The data port of the first controller.
pub const PIC1_DATA: u16 = 0x21;

/// The data port of the second controller.
pub const PIC2_DATA: u16 = 0xA1;

/// The command that ends an interrupt.
pub const EOI: u8 = 0x20;

/// The command that starts the initialisation of a controller.
pub const INIT: u8 = 0x11;

/// The mode in which a controller works with this processor.
pub const ICW4_8086: u8 = 0x01;

/// The vector that the first line of the first controller raises.
pub const PIC1_OFFSET: u8 = 32;

/// The vector that the first line of the second controller raises.
pub const PIC2_OFFSET: u8 = 40;

/// The vector of the timer.
pub const PIC_LINE_TIMER: u8 = 32;

/// The vector of the keyboard.
pub const PIC_LINE_KEYBOARD: u8 = 33;

/// The conversation that moves the controllers to the vectors from
/// `pic1_offset` and from `pic2_offset` on: both are initialised, told their
/// first vector, told how they are wired to one another, then put into the
/// processor's mode, with a pause after each write. At the end both get their
/// interrupt masks back.
pub open spec fn remap_commands(
    pic1_offset: u8,
    pic2_offset: u8,
    pic1_mask: u8,
    pic2_mask: u8,
) -> Seq<PortCommand> {
    seq![
        PortCommand::Write { port: PIC1_CMD, value: INIT },
        PortCommand::Wait,
        PortCommand::Write { port: PIC2_CMD, value: INIT },
        PortCommand::Wait,
        PortCommand::Write { port: PIC1_DATA, value: pic1_offset },
        PortCommand::Wait,
        PortCommand::Write { port: PIC2_DATA, value: pic2_offset },
        PortCommand::Wait,
        PortCommand::Write { port: PIC1_DATA, value: 4 },
        PortCommand::Wait,
        PortCommand::Write { port: PIC2_DATA, value: 2 },
        PortCommand::Wait,
        PortCommand::Write { port: PIC1_DATA, value: ICW4_8086 },
        PortCommand::Wait,
        PortCommand::Write { port: PIC2_DATA, value: ICW4_8086 },
        PortCommand::Wait,
        PortCommand::Write { port: PIC1_DATA, value: pic1_mask },
        PortCommand::Write { port: PIC2_DATA, value: pic2_mask },
    ]
}

/// What ends the interrupt of vector `irq`: a word to the second controller
/// if the vector is 8 or above, and a word to the first in any case.
pub open spec fn eoi_commands(irq: u8) -> Seq<PortCommand> {
    if irq >= 8 {
        seq![
            PortCommand::Write { port: PIC2_CMD, value: EOI },
            PortCommand::Write { port: PIC1_CMD, value: EOI },
        ]
    } else {
        seq![PortCommand::Write { port: PIC1_CMD, value: EOI }]
    }
}

/// The conversation that readies the controllers at boot: they are moved to
/// the vectors from `PIC1_OFFSET` and `PIC2_OFFSET` on. `pic1_mask` and
/// `pic2_mask` are the interrupt masks read from the two data ports
/// beforehand. The caller lets interrupts in once the commands are carried
/// out.
pub fn init_pic(pic1_mask: u8, pic2_mask: u8) -> (commands: Vec<PortCommand>)
    ensures
        commands@ == remap_commands(PIC1_OFFSET, PIC2_OFFSET, pic1_mask, pic2_mask),
{
    remap(PIC1_OFFSET, PIC2_OFFSET, pic1_mask, pic2_mask)
}

/// What ends the interrupt of vector `irq`.
pub fn send_eoi(irq: u8) -> (commands: Vec<PortCommand>)
    ensures
        commands@ == eoi_commands(irq),
{
    let mut commands: Vec<PortCommand> = Vec::new();
    if irq >= 8 {
        commands.push(PortCommand::Write { port: PIC2_CMD, value: EOI });
    }
    commands.push(PortCommand::Write { port: PIC1_CMD, value: EOI });
    assert(commands@ =~= eoi_commands(irq));
    commands
}

/// The conversation that moves the controllers to the vectors from
/// `pic1_offset` and from `pic2_offset` on. `pic1_mask` and `pic2_mask` are
/// the interrupt masks read from the two data ports beforehand.
pub fn remap(pic1_offset: u8, pic2_offset: u8, pic1_mask: u8, pic2_mask: u8) -> (commands: Vec<
    PortCommand,
>)
    ensures
        commands@ == remap_commands(pic1_offset, pic2_offset, pic1_mask, pic2_mask),
{
    let mut commands: Vec<PortCommand> = Vec::new();
    commands.push(PortCommand::Write { port: PIC1_CMD, value: INIT });
    commands.push(PortCommand::Wait);
    commands.push(PortCommand::Write { port: PIC2_CMD, value: INIT });
    commands.push(PortCommand::Wait);
    commands.push(PortCommand::Write { port: PIC1_DATA, value: pic1_offset });
    commands.push(PortCommand::Wait);
    commands.push(PortCommand::Write { port: PIC2_DATA, value: pic2_offset });
    commands.push(PortCommand::Wait);
    commands.push(PortCommand::Write { port: PIC1_DATA, value: 4 });
    commands.push(PortCommand::Wait);
    commands.push(PortCommand::Write { port: PIC2_DATA, value: 2 });
    commands.push(PortCommand::Wait);
    commands.push(PortCommand::Write { port: PIC1_DATA, value: ICW4_8086 });
    commands.push(PortCommand::Wait);
    commands.push(PortCommand::Write { port: PIC2_DATA, value: ICW4_8086 });
    commands.push(PortCommand::Wait);
    commands.push(PortCommand::Write { port: PIC1_DATA, value: pic1_mask });
    commands.push(PortCommand::Write { port: PIC2_DATA, value: pic2_mask });
    assert(commands@ =~= remap_commands(pic1_offset, pic2_offset, pic1_mask, pic2_mask));
    commands
}

} // verus!
