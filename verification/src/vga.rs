//! The text screen: 25 lines of 80 cells, each a character and its colours,
//! and the cursor at which the next character goes.
//!
//! The cells lie in memory that the display reads. The functions here write
//! them through a slice that the caller lays over that memory, and hand back
//! what the display controller is to be told through its ports.

use vstd::prelude::*;
use vstd::string::StringSliceAdditionalSpecFns;
use crate::io::PortCommand;

verus! {

/// The address at which the display reads the cells.
pub const BUFFER_ADDRESS: u32 = 0xb8000;

/// The number of lines on the screen.
pub const BUFFER_HEIGHT: u16 = 25;

/// The number of cells in a line.
pub const BUFFER_WIDTH: u16 = 80;

/// The number of cells on the screen.
pub const BUFFER_SIZE: u16 = 2000;

/// The number of bytes that the cells take: two for each.
pub const BUFFER_BYTES: usize = 4000;

/// The port that chooses a register of the display controller.
pub const CONTROLLER_INDEX: u16 = 0x3D4;

/// The port through which the chosen register is read and written.
pub const CONTROLLER_DATA: u16 = 0x3D5;

/// A colour of the text screen.
#[allow(dead_code)]
#[derive(Debug, Clone, Copy, PartialEq, Eq, Structural)]
pub enum Color {
    Black,
    Blue,
    Green,
    Cyan,
    Red,
    Magenta,
    Brown,
    LightGray,
    DarkGray,
    LightBlue,
    LightGreen,
    LightCyan,
    LightRed,
    LightMagenta,
    LightBrown,
    White,
}

impl Color {
    /// The number by which the display knows the colour.
    pub open spec fn code(self) -> u8 {
        match self {
            Color::Black => 0x0,
            Color::Blue => 0x1,
            Color::Green => 0x2,
            Color::Cyan => 0x3,
            Color::Red => 0x4,
            Color::Magenta => 0x5,
            Color::Brown => 0x6,
            Color::LightGray => 0x7,
            Color::DarkGray => 0x8,
            Color::LightBlue => 0x9,
            Color::LightGreen => 0xA,
            Color::LightCyan => 0xB,
            Color::LightRed => 0xC,
            Color::LightMagenta => 0xD,
            Color::LightBrown => 0xE,
            Color::White => 0xF,
        }
    }

    /// The number by which the display knows the colour.
    pub fn color(self) -> (code: u8)
        ensures
            code == self.code(),
    {
        match self {
            Color::Black => 0x0,
            Color::Blue => 0x1,
            Color::Green => 0x2,
            Color::Cyan => 0x3,
            Color::Red => 0x4,
            Color::Magenta => 0x5,
            Color::Brown => 0x6,
            Color::LightGray => 0x7,
            Color::DarkGray => 0x8,
            Color::LightBlue => 0x9,
            Color::LightGreen => 0xA,
            Color::LightCyan => 0xB,
            Color::LightRed => 0xC,
            Color::LightMagenta => 0xD,
            Color::LightBrown => 0xE,
            Color::White => 0xF,
        }
    }
}

/// The byte of an empty cell at place `i` of the cells: no character, in
/// light gray.
pub open spec fn blank_byte(i: int) -> u8 {
    if i % 2 == 0 {
        0
    } else {
        Color::LightGray.code()
    }
}

/// The cells of an empty screen.
pub open spec fn blank_cells() -> Seq<u8> {
    Seq::new(BUFFER_BYTES as nat, |i: int| blank_byte(i))
}

/// The cells one line further up: the top line gone, and the bottom line
/// empty.
pub open spec fn scrolled_cells(cells: Seq<u8>) -> Seq<u8> {
    Seq::new(
        BUFFER_BYTES as nat,
        |i: int|
            if i < BUFFER_BYTES - 2 * BUFFER_WIDTH {
                cells[i + 2 * BUFFER_WIDTH]
            } else {
                blank_byte(i)
            },
    )
}

/// What tells the display controller that the cursor is at cell `index`: the
/// low byte of the index into register 15, the high byte into register 14.
pub open spec fn cursor_commands(index: int) -> Seq<PortCommand> {
    seq![
        PortCommand::Write { port: CONTROLLER_INDEX, value: 0x0F },
        PortCommand::Write { port: CONTROLLER_DATA, value: (index % 0x100) as u8 },
        PortCommand::Write { port: CONTROLLER_INDEX, value: 0x0E },
        PortCommand::Write { port: CONTROLLER_DATA, value: (index / 0x100) as u8 },
    ]
}

/// What makes the cursor a full block, where `cursor_start` and `cursor_end`
/// are what the controller's registers 10 and 11 hold: the cursor is switched
/// on and starts at the top of the cell, and ends at its bottom, and the
/// other bits of both registers stay.
pub open spec fn enable_commands(cursor_start: u8, cursor_end: u8) -> Seq<PortCommand> {
    seq![
        PortCommand::Write { port: CONTROLLER_INDEX, value: 0x0A },
        PortCommand::Write { port: CONTROLLER_DATA, value: cursor_start & 0xC0 },
        PortCommand::Write { port: CONTROLLER_INDEX, value: 0x0B },
        PortCommand::Write { port: CONTROLLER_DATA, value: (cursor_end & 0xE0) | 15 },
    ]
}

/// The screen: its cells, and the column and line of the cursor.
pub struct Screen {
    pub cells: Seq<u8>,
    pub x: int,
    pub y: int,
}

impl Screen {
    /// The cells are all there and the cursor is on the screen.
    pub open spec fn wf(self) -> bool {
        &&& self.cells.len() == BUFFER_BYTES
        &&& 0 <= self.x < BUFFER_WIDTH
        &&& 0 <= self.y < BUFFER_HEIGHT
    }

    /// The number of the cell under the cursor, counted line by line.
    pub open spec fn index(self) -> int {
        BUFFER_WIDTH * self.y + self.x
    }

    /// The screen with the cursor at the start of the next line. On the last
    /// line the cursor stays on the line and the text moves up.
    pub open spec fn new_line(self) -> Screen {
        if self.y + 1 >= BUFFER_HEIGHT {
            Screen { cells: scrolled_cells(self.cells), x: 0, y: BUFFER_HEIGHT - 1 }
        } else {
            Screen { x: 0, y: self.y + 1, ..self }
        }
    }

    /// The screen with the cursor one cell on, at the start of the next line
    /// after the last cell of a line.
    pub open spec fn advanced(self) -> Screen {
        if self.x + 1 >= BUFFER_WIDTH {
            self.new_line()
        } else {
            Screen { x: self.x + 1, ..self }
        }
    }

    /// The screen after `byte` was written: a line feed starts a new line,
    /// any other byte goes into the cell under the cursor, in light gray, and
    /// moves the cursor on.
    pub open spec fn put(self, byte: u8) -> Screen {
        if byte == 10 {
            self.new_line()
        } else {
            Screen {
                cells: self.cells.update(2 * self.index(), byte).update(
                    2 * self.index() + 1,
                    Color::LightGray.code(),
                ),
                ..self
            }.advanced()
        }
    }

    /// The screen after each of `bytes` was written, in order.
    pub open spec fn typed(self, bytes: Seq<u8>) -> Screen
        decreases bytes.len(),
    {
        if bytes.len() == 0 {
            self
        } else {
            self.typed(bytes.drop_last()).put(bytes.last())
        }
    }

    /// Writing keeps the cells all there and the cursor on the screen.
    pub proof fn lemma_typed_is_well_formed(self, bytes: Seq<u8>)
        requires
            self.wf(),
        ensures
            self.typed(bytes).wf(),
        decreases bytes.len(),
    {
        if bytes.len() > 0 {
            self.lemma_typed_is_well_formed(bytes.drop_last());
        }
    }
}

/// Where on the text screen the next character goes.
pub struct VGATextState {
    cursor_x: u16,
    cursor_y: u16,
}

impl VGATextState {
    /// The column of the cursor.
    pub closed spec fn column(&self) -> int {
        self.cursor_x as int
    }

    /// The line of the cursor.
    pub closed spec fn line(&self) -> int {
        self.cursor_y as int
    }

    /// The screen with these cells and this cursor.
    pub open spec fn screen(&self, cells: Seq<u8>) -> Screen {
        Screen { cells, x: self.column(), y: self.line() }
    }

    /// The cursor is on the screen.
    pub open spec fn wf(&self) -> bool {
        &&& 0 <= self.column() < BUFFER_WIDTH
        &&& 0 <= self.line() < BUFFER_HEIGHT
    }

    /// The cursor at the top left.
    pub fn new() -> (state: VGATextState)
        ensures
            state.column() == 0,
            state.line() == 0,
    {
        VGATextState { cursor_x: 0, cursor_y: 0 }
    }

    /// Moves the cursor one cell on.
    pub fn advance_cursor(&mut self, buffer: &mut [u8])
        requires
            old(self).screen(old(buffer)@).wf(),
        ensures
            final(self).screen(final(buffer)@) == old(self).screen(old(buffer)@).advanced(),
    {
        self.cursor_x += 1;
        if self.cursor_x >= BUFFER_WIDTH {
            self.newline(buffer);
        }
    }

    /// Moves the cursor to the start of the next line.
    pub fn newline(&mut self, buffer: &mut [u8])
        requires
            old(buffer)@.len() == BUFFER_BYTES,
            0 <= old(self).line() < BUFFER_HEIGHT,
        ensures
            final(self).screen(final(buffer)@) == (Screen { x: 0, ..old(self).screen(old(buffer)@) })
                .new_line(),
    {
        self.cursor_x = 0;
        self.cursor_y += 1;
        if self.cursor_y >= BUFFER_HEIGHT {
            self.cursor_y = BUFFER_HEIGHT - 1;
            self.scroll_down_one_line(buffer);
        }
    }

    /// Moves the text one line up and empties the last line.
    pub fn scroll_down_one_line(&self, buffer: &mut [u8])
        requires
            old(buffer)@.len() == BUFFER_BYTES,
        ensures
            final(buffer)@ == scrolled_cells(old(buffer)@),
    {
        let line: usize = 2 * BUFFER_WIDTH as usize;
        let kept: usize = BUFFER_BYTES - line;
        let mut i: usize = 0;
        while i < kept
            invariant
                i <= kept,
                line == 2 * BUFFER_WIDTH,
                kept == BUFFER_BYTES - line,
                buffer@.len() == BUFFER_BYTES,
                forall|j: int| 0 <= j < i ==> buffer@[j] == old(buffer)@[j + line],
                forall|j: int| i <= j < BUFFER_BYTES ==> buffer@[j] == old(buffer)@[j],
            decreases kept - i,
        {
            buffer[i] = buffer[i + line];
            i += 1;
        }
        while i < BUFFER_BYTES
            invariant
                kept <= i <= BUFFER_BYTES,
                i % 2 == 0,
                line == 2 * BUFFER_WIDTH,
                kept == BUFFER_BYTES - line,
                buffer@.len() == BUFFER_BYTES,
                forall|j: int| 0 <= j < kept ==> buffer@[j] == old(buffer)@[j + line],
                forall|j: int| kept <= j < i ==> buffer@[j] == blank_byte(j),
            decreases BUFFER_BYTES - i,
        {
            buffer[i] = 0;
            buffer[i + 1] = Color::LightGray.color();
            i += 2;
        }
        assert(buffer@ =~= scrolled_cells(old(buffer)@));
    }

    /// Empties the screen and puts the cursor at the top left. The result
    /// tells the display controller where the cursor is.
    pub fn clear_screen(&mut self, buffer: &mut [u8]) -> (commands: Vec<PortCommand>)
        requires
            old(buffer)@.len() == BUFFER_BYTES,
        ensures
            final(self).screen(final(buffer)@) == (Screen { cells: blank_cells(), x: 0, y: 0 }),
            commands@ == cursor_commands(0),
    {
        let mut i: usize = 0;
        while i < BUFFER_BYTES
            invariant
                i <= BUFFER_BYTES,
                i % 2 == 0,
                buffer@.len() == BUFFER_BYTES,
                forall|j: int| 0 <= j < i ==> buffer@[j] == blank_byte(j),
            decreases BUFFER_BYTES - i,
        {
            buffer[i] = 0;
            buffer[i + 1] = Color::LightGray.color();
            i += 2;
        }
        assert(buffer@ =~= blank_cells());
        self.cursor_x = 0;
        self.cursor_y = 0;
        self.update_cursor_position()
    }

    /// What tells the display controller where the cursor is.
    pub fn update_cursor_position(&self) -> (commands: Vec<PortCommand>)
        requires
            self.wf(),
        ensures
            commands@ == cursor_commands(self.screen(Seq::empty()).index()),
    {
        let i = self.get_buffer_index_at_cursor();
        assert(i as u8 == i % 0x100 && (i >> 8u16) as u8 == i / 0x100) by (bit_vector)
            requires
                i < 2000,
        ;
        let mut commands: Vec<PortCommand> = Vec::new();
        commands.push(PortCommand::Write { port: 0x3D4, value: 0x0F });
        commands.push(PortCommand::Write { port: 0x3D5, value: i as u8 });
        commands.push(PortCommand::Write { port: 0x3D4, value: 0x0E });
        commands.push(PortCommand::Write { port: 0x3D5, value: (i >> 8) as u8 });
        assert(commands@ =~= cursor_commands(i as int));
        commands
    }

    /// The number of the cell under the cursor, counted line by line.
    pub fn get_buffer_index_at_cursor(&self) -> (index: u16)
        requires
            self.wf(),
        ensures
            index == self.screen(Seq::empty()).index(),
            index < BUFFER_SIZE,
    {
        BUFFER_WIDTH * self.cursor_y + self.cursor_x
    }

    /// What makes the cursor a full block. `cursor_start` and `cursor_end`
    /// are what the display controller's registers 10 and 11 hold.
    pub fn enable_cursor(&self, cursor_start: u8, cursor_end: u8) -> (commands: Vec<PortCommand>)
        ensures
            commands@ == enable_commands(cursor_start, cursor_end),
    {
        let mut commands: Vec<PortCommand> = Vec::new();
        commands.push(PortCommand::Write { port: 0x3D4, value: 0x0A });
        commands.push(PortCommand::Write { port: 0x3D5, value: (cursor_start & 0xC0) | 0 });
        commands.push(PortCommand::Write { port: 0x3D4, value: 0x0B });
        commands.push(PortCommand::Write { port: 0x3D5, value: (cursor_end & 0xE0) | 15 });
        assert((cursor_start & 0xC0) | 0 == cursor_start & 0xC0) by (bit_vector);
        assert(commands@ =~= enable_commands(cursor_start, cursor_end));
        commands
    }

    /// Writes the bytes of `s` at the cursor, a line feed as the start of a
    /// new line. The result tells the display controller where the cursor is
    /// afterwards.
    pub fn write_str(&mut self, s: &str, buffer: &mut [u8]) -> (commands: Vec<PortCommand>)
        requires
            old(self).screen(old(buffer)@).wf(),
        ensures
            final(self).screen(final(buffer)@) == old(self).screen(old(buffer)@).typed(
                s.spec_bytes(),
            ),
            commands@ == cursor_commands(final(self).screen(final(buffer)@).index()),
    {
        let bytes = s.as_bytes();
        let ghost start = self.screen(buffer@);
        let mut i: usize = 0;
        while i < bytes.len()
            invariant
                i <= bytes.len(),
                bytes@ == s.spec_bytes(),
                start.wf(),
                self.screen(buffer@).wf(),
                self.screen(buffer@) == start.typed(bytes@.take(i as int)),
            decreases bytes.len() - i,
        {
            let char = bytes[i];
            proof {
                assert(bytes@.take(i + 1).drop_last() =~= bytes@.take(i as int));
            }
            if char == 10 {
                self.newline(buffer);
            } else {
                let index = self.get_buffer_index_at_cursor() as usize;
                buffer[index * 2] = char;
                buffer[index * 2 + 1] = Color::LightGray.color();
                self.advance_cursor(buffer);
            }
            i += 1;
        }
        proof {
            assert(bytes@.take(i as int) =~= bytes@);
        }
        self.update_cursor_position()
    }
}

} // verus!
