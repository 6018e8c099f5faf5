use kernel_core::io::PortCommand;
use kernel_core::keyboard::{key_action, DecodedKey, Key, KeyAction, KeyPress};
use kernel_core::pic::{init_pic, remap, send_eoi, PIC_LINE_KEYBOARD, PIC_LINE_TIMER};
use kernel_core::serial::{is_transmit_empty, Serial, COM1, COM2};
use kernel_core::vga::{Color, VGATextState, BUFFER_BYTES};

fn write(port: u16, value: u8) -> PortCommand {
    PortCommand::Write { port, value }
}

#[test]
fn remap_tells_both_controllers_their_vectors() {
    let commands = remap(0x20, 0x28, 0xB8, 0x8E);
    assert_eq!(
        commands,
        vec![
            write(0x20, 0x11),
            PortCommand::Wait,
            write(0xA0, 0x11),
            PortCommand::Wait,
            write(0x21, 0x20),
            PortCommand::Wait,
            write(0xA1, 0x28),
            PortCommand::Wait,
            write(0x21, 4),
            PortCommand::Wait,
            write(0xA1, 2),
            PortCommand::Wait,
            write(0x21, 1),
            PortCommand::Wait,
            write(0xA1, 1),
            PortCommand::Wait,
            write(0x21, 0xB8),
            write(0xA1, 0x8E),
        ]
    );
}

#[test]
fn init_pic_moves_the_controllers_to_32_and_40() {
    let commands = init_pic(0xFF, 0x00);
    assert_eq!(commands, remap(32, 40, 0xFF, 0x00));
    assert_eq!(commands[4], write(0x21, 32));
    assert_eq!(commands[6], write(0xA1, 40));
    assert_eq!(commands.len(), 18);
}

#[test]
fn end_of_interrupt_goes_to_the_controllers_in_charge() {
    assert_eq!(send_eoi(0), vec![write(0x20, 0x20)]);
    assert_eq!(send_eoi(7), vec![write(0x20, 0x20)]);
    assert_eq!(send_eoi(8), vec![write(0xA0, 0x20), write(0x20, 0x20)]);
    assert_eq!(send_eoi(PIC_LINE_TIMER), vec![write(0xA0, 0x20), write(0x20, 0x20)]);
    assert_eq!(send_eoi(PIC_LINE_KEYBOARD), vec![write(0xA0, 0x20), write(0x20, 0x20)]);
}

#[test]
fn serial_port_is_set_up_for_its_baud_rate() {
    assert_eq!(
        Serial(COM1).init(38400),
        vec![
            write(0x3F9, 0x00),
            write(0x3FB, 0x80),
            write(0x3F8, 3),
            write(0x3F9, 0),
            write(0x3FB, 0x03),
            write(0x3FA, 0xC7),
            write(0x3FC, 0x0B),
        ]
    );
    let slow = Serial(COM2).init(300);
    assert_eq!(slow[2], write(0x2F8, 0x80));
    assert_eq!(slow[3], write(0x2F9, 0x01));
    let fastest = Serial(COM1).init(115200);
    assert_eq!(fastest[2], write(0x3F8, 1));
    assert_eq!(fastest[3], write(0x3F9, 0));
}

#[test]
fn serial_divisor_keeps_its_low_16_bits() {
    let commands = Serial(COM1).init(1);
    assert_eq!(commands[2], write(0x3F8, 0x00));
    assert_eq!(commands[3], write(0x3F9, 0xC2));
}

#[test]
fn transmitter_is_empty_when_bit_5_is_set() {
    assert_eq!(is_transmit_empty(0x20), 0x20);
    assert_eq!(is_transmit_empty(0xFF), 0x20);
    assert_eq!(is_transmit_empty(0xDF), 0);
    assert_eq!(is_transmit_empty(0), 0);
}

#[test]
fn colours_have_their_codes() {
    assert_eq!(Color::Black.color(), 0);
    assert_eq!(Color::Blue.color(), 1);
    assert_eq!(Color::Green.color(), 2);
    assert_eq!(Color::Cyan.color(), 3);
    assert_eq!(Color::Red.color(), 4);
    assert_eq!(Color::Magenta.color(), 5);
    assert_eq!(Color::Brown.color(), 6);
    assert_eq!(Color::LightGray.color(), 7);
    assert_eq!(Color::DarkGray.color(), 8);
    assert_eq!(Color::LightBlue.color(), 9);
    assert_eq!(Color::LightGreen.color(), 10);
    assert_eq!(Color::LightCyan.color(), 11);
    assert_eq!(Color::LightRed.color(), 12);
    assert_eq!(Color::LightMagenta.color(), 13);
    assert_eq!(Color::LightBrown.color(), 14);
    assert_eq!(Color::White.color(), 15);
}

fn blank() -> Vec<u8> {
    let mut cells = vec![0u8; BUFFER_BYTES];
    for i in 0..BUFFER_BYTES / 2 {
        cells[2 * i + 1] = 7;
    }
    cells
}

#[test]
fn clear_screen_empties_every_cell() {
    let mut buffer = vec![0xAAu8; BUFFER_BYTES];
    let mut state = VGATextState::new();
    state.write_str("abc", &mut buffer);
    let commands = state.clear_screen(&mut buffer);
    assert_eq!(buffer, blank());
    assert_eq!(state.get_buffer_index_at_cursor(), 0);
    assert_eq!(commands, vec![write(0x3D4, 0x0F), write(0x3D5, 0), write(0x3D4, 0x0E), write(0x3D5, 0)]);
}

#[test]
fn write_str_puts_characters_at_the_cursor() {
    let mut buffer = blank();
    let mut state = VGATextState::new();
    let commands = state.write_str("Hi", &mut buffer);
    assert_eq!(&buffer[0..6], &[b'H', 7, b'i', 7, 0, 7]);
    assert_eq!(state.get_buffer_index_at_cursor(), 2);
    assert_eq!(commands, vec![write(0x3D4, 0x0F), write(0x3D5, 2), write(0x3D4, 0x0E), write(0x3D5, 0)]);
}

#[test]
fn line_feed_starts_a_new_line() {
    let mut buffer = blank();
    let mut state = VGATextState::new();
    let commands = state.write_str("ab\ncd\n\ne", &mut buffer);
    assert_eq!(&buffer[0..4], &[b'a', 7, b'b', 7]);
    assert_eq!(&buffer[160..164], &[b'c', 7, b'd', 7]);
    assert_eq!(&buffer[480..482], &[b'e', 7]);
    assert_eq!(state.get_buffer_index_at_cursor(), 3 * 80 + 1);
    assert_eq!(commands, vec![write(0x3D4, 0x0F), write(0x3D5, 241), write(0x3D4, 0x0E), write(0x3D5, 0)]);
}

#[test]
fn cursor_position_is_sent_in_two_bytes() {
    let mut buffer = blank();
    let mut state = VGATextState::new();
    state.write_str("\n\n\n\n\n\n\n\n\n\n0123456789", &mut buffer);
    assert_eq!(state.get_buffer_index_at_cursor(), 810);
    assert_eq!(
        state.update_cursor_position(),
        vec![write(0x3D4, 0x0F), write(0x3D5, 0x2A), write(0x3D4, 0x0E), write(0x3D5, 0x03)]
    );
}

#[test]
fn full_line_wraps_to_the_next() {
    let mut buffer = blank();
    let mut state = VGATextState::new();
    let line: String = "x".repeat(80);
    state.write_str(&line, &mut buffer);
    assert_eq!(state.get_buffer_index_at_cursor(), 80);
    state.write_str("y", &mut buffer);
    assert_eq!(buffer[158], b'x');
    assert_eq!(buffer[160], b'y');
    assert_eq!(state.get_buffer_index_at_cursor(), 81);
}

#[test]
fn last_line_scrolls() {
    let mut buffer = blank();
    let mut state = VGATextState::new();
    for line in 0..25u8 {
        let text = [b'a' + line];
        state.write_str(std::str::from_utf8(&text).unwrap(), &mut buffer);
        if line < 24 {
            state.write_str("\n", &mut buffer);
        }
    }
    assert_eq!(buffer[0], b'a');
    assert_eq!(buffer[24 * 160], b'y');
    assert_eq!(state.get_buffer_index_at_cursor(), 24 * 80 + 1);
    state.write_str("\n", &mut buffer);
    assert_eq!(buffer[0], b'b');
    assert_eq!(buffer[23 * 160], b'y');
    assert_eq!(&buffer[24 * 160..], &blank()[24 * 160..]);
    assert_eq!(state.get_buffer_index_at_cursor(), 24 * 80);
    state.write_str("z", &mut buffer);
    assert_eq!(buffer[24 * 160], b'z');
}

#[test]
fn scroll_moves_every_line_up() {
    let mut buffer: Vec<u8> = (0..BUFFER_BYTES).map(|i| (i % 251) as u8).collect();
    let before = buffer.clone();
    let state = VGATextState::new();
    state.scroll_down_one_line(&mut buffer);
    assert_eq!(&buffer[..BUFFER_BYTES - 160], &before[160..]);
    assert_eq!(&buffer[BUFFER_BYTES - 160..], &blank()[..160]);
}

#[test]
fn newline_and_advance_move_the_cursor() {
    let mut buffer = blank();
    let mut state = VGATextState::new();
    state.advance_cursor(&mut buffer);
    assert_eq!(state.get_buffer_index_at_cursor(), 1);
    state.newline(&mut buffer);
    assert_eq!(state.get_buffer_index_at_cursor(), 80);
    for _ in 0..80 {
        state.advance_cursor(&mut buffer);
    }
    assert_eq!(state.get_buffer_index_at_cursor(), 160);
    assert_eq!(buffer, blank());
}

#[test]
fn enable_cursor_keeps_the_other_register_bits() {
    let state = VGATextState::new();
    assert_eq!(
        state.enable_cursor(0xFF, 0xFF),
        vec![write(0x3D4, 0x0A), write(0x3D5, 0xC0), write(0x3D4, 0x0B), write(0x3D5, 0xEF)]
    );
    assert_eq!(
        state.enable_cursor(0x2D, 0x0E),
        vec![write(0x3D4, 0x0A), write(0x3D5, 0x00), write(0x3D4, 0x0B), write(0x3D5, 0x0F)]
    );
}

#[test]
fn keys_act_when_they_go_down() {
    let down = |key: Key| KeyPress { key, down: true };
    let up = |key: Key| KeyPress { key, down: false };
    assert_eq!(key_action(down(Key::Enter), Some(DecodedKey::Unicode('\n'))), KeyAction::NewLine);
    assert_eq!(key_action(down(Key::Enter), Some(DecodedKey::RawKey)), KeyAction::NewLine);
    assert_eq!(key_action(down(Key::Backspace), Some(DecodedKey::Unicode('\u{8}'))), KeyAction::Nothing);
    assert_eq!(key_action(down(Key::Tab), Some(DecodedKey::Unicode('\t'))), KeyAction::Nothing);
    assert_eq!(key_action(down(Key::Other), Some(DecodedKey::Unicode('q'))), KeyAction::Print('q'));
    assert_eq!(key_action(down(Key::Other), Some(DecodedKey::RawKey)), KeyAction::Nothing);
    assert_eq!(key_action(down(Key::Other), None), KeyAction::Nothing);
    assert_eq!(key_action(down(Key::Enter), None), KeyAction::Nothing);
    assert_eq!(key_action(up(Key::Other), Some(DecodedKey::Unicode('q'))), KeyAction::Nothing);
    assert_eq!(key_action(up(Key::Enter), Some(DecodedKey::Unicode('\n'))), KeyAction::Nothing);
}
