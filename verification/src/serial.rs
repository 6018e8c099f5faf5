//! The serial ports: how a port is set up for a baud rate, and when it takes
//! the next byte.

use vstd::prelude::*;
use crate::io::PortCommand;

verus! {

/// The first serial port.
pub const COM1: u16 = 0x3F8;

/// The second serial port.
pub const COM2: u16 = 0x2F8;

/// The third serial port.
pub const COM3: u16 = 0x3E8;

/// The fourth serial port.
pub const COM4: u16 = 0x2E8;

/// The baud rate of a port whose divisor is 1.
pub const BASE_BAUD_RATE: u32 = 115200;

/// The offset of the port that tells whether the transmitter is empty.
pub const LINE_STATUS: u16 = 5;

/// The bit of the line status that is set while the transmitter is empty.
pub const TRANSMIT_EMPTY: u8 = 0x20;

/// What the port is told as its divisor for `baud_rate`: the quotient of the
/// base rate, of which the port keeps the low 16 bits.
pub open spec fn divisor(baud_rate: u32) -> int {
    (BASE_BAUD_RATE as int / baud_rate as int) % 0x1_0000
}

/// The conversation that sets the port at `port` up for `baud_rate`, with 8
/// data bits, no parity and one stop bit: interrupts off, the divisor in two
/// bytes behind the divisor latch, the line format, the buffers cleared and
/// on, and the modem lines raised.
pub open spec fn init_commands(port: u16, baud_rate: u32) -> Seq<PortCommand> {
    seq![
        PortCommand::Write { port: (port + 1) as u16, value: 0x00 },
        PortCommand::Write { port: (port + 3) as u16, value: 0x80 },
        PortCommand::Write { port, value: (divisor(baud_rate) % 0x100) as u8 },
        PortCommand::Write { port: (port + 1) as u16, value: (divisor(baud_rate) / 0x100) as u8 },
        PortCommand::Write { port: (port + 3) as u16, value: 0x03 },
        PortCommand::Write { port: (port + 2) as u16, value: 0xC7 },
        PortCommand::Write { port: (port + 4) as u16, value: 0x0B },
    ]
}

/// A serial port, by the address of its first register.
#[derive(Debug)]
pub struct Serial(pub u16);

impl Serial {
    /// The conversation that sets the port up for `baud_rate`, which has to
    /// divide the base rate.
    pub fn init(&self, baud_rate: u32) -> (commands: Vec<PortCommand>)
        requires
            baud_rate != 0,
            BASE_BAUD_RATE % baud_rate == 0,
            self.0 <= 0xFFFF - LINE_STATUS,
        ensures
            commands@ == init_commands(self.0, baud_rate),
    {
        let quotient: u32 = 115200 / baud_rate;
        let baud_rate_divisor = quotient as u16;
        let baud_rate_lo = (baud_rate_divisor & 0x00FF) as u8;
        let baud_rate_hi = (baud_rate_divisor >> 8) as u8;
        assert(quotient as u16 == quotient % 0x1_0000) by (bit_vector);
        assert((baud_rate_divisor & 0x00FF) as u8 == baud_rate_divisor % 0x100 && (
        baud_rate_divisor >> 8u16) as u8 == baud_rate_divisor / 0x100) by (bit_vector);
        let mut commands: Vec<PortCommand> = Vec::new();
        commands.push(PortCommand::Write { port: self.0 + 1, value: 0x00 });
        commands.push(PortCommand::Write { port: self.0 + 3, value: 0x80 });
        commands.push(PortCommand::Write { port: self.0, value: baud_rate_lo });
        commands.push(PortCommand::Write { port: self.0 + 1, value: baud_rate_hi });
        commands.push(PortCommand::Write { port: self.0 + 3, value: 0x03 });
        commands.push(PortCommand::Write { port: self.0 + 2, value: 0xC7 });
        commands.push(PortCommand::Write { port: self.0 + 4, value: 0x0B });
        assert(commands@ =~= init_commands(self.0, baud_rate));
        commands
    }
}

/// The transmitter's part of `line_status`, the byte read from the line
/// status port: zero while a byte is still on its way out.
pub fn is_transmit_empty(line_status: u8) -> (empty: u8)
    ensures
        empty == line_status & TRANSMIT_EMPTY,
{
    line_status & 0x20
}

} // verus!
