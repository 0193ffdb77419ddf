use bare_kernel::interrupts::{
    breakpoint_handler, completed_event, double_fault_handler, init_idt, keyboard_interrupt_handler, notify_end_of_interrupt,
    page_fault_handler, print_key, show_key, timer_interrupt_handler, Controller, Disposition, Entry, Handler,
    InterruptIndex, Key, KeyboardSession, BREAKPOINT_VECTOR, DOUBLE_FAULT_VECTOR, PAGE_FAULT_VECTOR,
    PIC_1_OFFSET, PIC_2_OFFSET,
};
use bare_kernel::vga_buffer::{Buffer, Color, ColorCode, ScreenChar, Writer, BUFFER_HEIGHT, BUFFER_WIDTH};
use pc_keyboard::{Error, KeyCode, KeyEvent, KeyState};

fn fresh_writer() -> Writer {
    let color = ColorCode::new(Color::Green, Color::Black);
    Writer::new(color, Buffer::new(ScreenChar { ascii_character: b' ', color_code: color }))
}

fn row_text(writer: &Writer, row: usize) -> String {
    let text: String = (0..BUFFER_WIDTH).map(|col| char::from(writer.read(row, col).ascii_character)).collect();
    text.trim_end().to_string()
}

#[test]
fn test_breakpoint_exception() {
    let mut writer = fresh_writer();
    let next = breakpoint_handler(&mut writer, "InterruptStackFrame {\n    instruction_pointer: 1,\n}");
    assert_eq!(next, Disposition::Resume);
    assert_eq!(row_text(&writer, BUFFER_HEIGHT - 5), "EXCEPTION: BREAKPOINT");
    assert_eq!(row_text(&writer, BUFFER_HEIGHT - 4), "InterruptStackFrame {");
    assert_eq!(row_text(&writer, BUFFER_HEIGHT - 3), "    instruction_pointer: 1,");
    assert_eq!(row_text(&writer, BUFFER_HEIGHT - 2), "}");
    assert_eq!(row_text(&writer, BUFFER_HEIGHT - 1), "");
    assert_eq!(writer.column_position(), 0);
}

#[test]
fn double_fault_is_reported_and_halts() {
    let mut writer = fresh_writer();
    let next = double_fault_handler(&mut writer, "frame");
    assert_eq!(next, Disposition::Halt);
    assert_eq!(row_text(&writer, BUFFER_HEIGHT - 3), "EXCEPTION: DOUBLE FAULT");
    assert_eq!(row_text(&writer, BUFFER_HEIGHT - 2), "frame");
    assert_eq!(writer.column_position(), 0);
}

#[test]
fn page_fault_is_reported_and_halts() {
    let mut writer = fresh_writer();
    let next = page_fault_handler(&mut writer, "VirtAddr(0xdeadbeaf)", "CAUSED_BY_WRITE", "frame");
    assert_eq!(next, Disposition::Halt);
    assert_eq!(row_text(&writer, BUFFER_HEIGHT - 5), "EXCEPTION: PAGE FAULT");
    assert_eq!(row_text(&writer, BUFFER_HEIGHT - 4), "Accessed Address: VirtAddr(0xdeadbeaf)");
    assert_eq!(row_text(&writer, BUFFER_HEIGHT - 3), "Error Code: CAUSED_BY_WRITE");
    assert_eq!(row_text(&writer, BUFFER_HEIGHT - 2), "frame");
    assert_eq!(row_text(&writer, BUFFER_HEIGHT - 1), "");
}

#[test]
fn timer_tick_prints_a_dot_and_asks_for_acknowledgment() {
    let mut writer = fresh_writer();
    for tick in 0..3 {
        let next = timer_interrupt_handler(&mut writer);
        assert_eq!(next, Disposition::Acknowledge(InterruptIndex::Timer));
        assert_eq!(writer.column_position(), tick + 1);
    }
    assert_eq!(row_text(&writer, BUFFER_HEIGHT - 1), "...");
}

#[test]
fn interrupt_vectors_follow_the_primary_offset() {
    assert_eq!(PIC_1_OFFSET, 32);
    assert_eq!(PIC_2_OFFSET, 40);
    assert_eq!(InterruptIndex::Timer.as_u8(), 32);
    assert_eq!(InterruptIndex::Keyboard.as_u8(), 33);
    assert_eq!(InterruptIndex::Timer.as_usize(), 32);
    assert_eq!(InterruptIndex::Keyboard.as_usize(), 33);
}

#[test]
fn init_idt_binds_five_vectors() {
    let table = init_idt(0);
    for vector in 0u8..=255 {
        let expected = match vector {
            3 => Some(Entry { handler: Handler::Breakpoint, stack_index: None }),
            8 => Some(Entry { handler: Handler::DoubleFault, stack_index: Some(0) }),
            14 => Some(Entry { handler: Handler::PageFault, stack_index: None }),
            32 => Some(Entry { handler: Handler::Timer, stack_index: None }),
            33 => Some(Entry { handler: Handler::Keyboard, stack_index: None }),
            _ => None,
        };
        assert_eq!(table.entry(vector), expected);
    }
    assert_eq!(BREAKPOINT_VECTOR, 3);
    assert_eq!(DOUBLE_FAULT_VECTOR, 8);
    assert_eq!(PAGE_FAULT_VECTOR, 14);
}

#[test]
fn init_idt_puts_the_double_fault_on_the_given_stack() {
    for stack in 0u16..7 {
        let table = init_idt(stack);
        assert_eq!(
            table.entry(DOUBLE_FAULT_VECTOR),
            Some(Entry { handler: Handler::DoubleFault, stack_index: Some(stack) })
        );
    }
}

#[test]
fn timer_is_acknowledged_to_the_primary_alone() {
    assert_eq!(notify_end_of_interrupt(InterruptIndex::Timer.as_u8()), vec![Controller::Primary]);
    assert_eq!(notify_end_of_interrupt(InterruptIndex::Keyboard.as_u8()), vec![Controller::Primary]);
}

#[test]
fn secondary_lines_are_acknowledged_secondary_first() {
    for vector in 40u8..48 {
        assert_eq!(notify_end_of_interrupt(vector), vec![Controller::Secondary, Controller::Primary]);
    }
}

#[test]
fn acknowledgments_for_every_vector() {
    for vector in 0u8..=255 {
        let expected = if (32..40).contains(&vector) {
            vec![Controller::Primary]
        } else if (40..48).contains(&vector) {
            vec![Controller::Secondary, Controller::Primary]
        } else {
            vec![]
        };
        assert_eq!(notify_end_of_interrupt(vector), expected);
        assert_eq!(Controller::Primary.handles_interrupt(vector), (32..40).contains(&vector));
        assert_eq!(Controller::Secondary.handles_interrupt(vector), (40..48).contains(&vector));
    }
}

#[test]
fn key_press_is_printed_and_acknowledged() {
    let mut session = KeyboardSession::new();
    let mut writer = fresh_writer();
    // 0x23 is the make code of H in scancode set 1, 0x17 that of I.
    assert_eq!(
        keyboard_interrupt_handler(&mut session, &mut writer, 0x23),
        Disposition::Acknowledge(InterruptIndex::Keyboard)
    );
    assert_eq!(
        keyboard_interrupt_handler(&mut session, &mut writer, 0x17),
        Disposition::Acknowledge(InterruptIndex::Keyboard)
    );
    assert_eq!(row_text(&writer, BUFFER_HEIGHT - 1), "hi");
    assert_eq!(writer.column_position(), 2);
}

#[test]
fn key_release_prints_nothing_but_is_acknowledged() {
    let mut session = KeyboardSession::new();
    let mut writer = fresh_writer();
    assert_eq!(
        keyboard_interrupt_handler(&mut session, &mut writer, 0xa3),
        Disposition::Acknowledge(InterruptIndex::Keyboard)
    );
    assert_eq!(row_text(&writer, BUFFER_HEIGHT - 1), "");
    assert_eq!(writer.column_position(), 0);
}

#[test]
fn shift_is_kept_from_one_interrupt_to_the_next() {
    let mut session = KeyboardSession::new();
    let mut writer = fresh_writer();
    for scancode in [0x2a, 0x23, 0xa3, 0xaa, 0x23] {
        keyboard_interrupt_handler(&mut session, &mut writer, scancode);
    }
    assert_eq!(row_text(&writer, BUFFER_HEIGHT - 1), "Hh");
}

#[test]
fn extended_scancode_spans_two_interrupts() {
    let mut session = KeyboardSession::new();
    assert_eq!(session.decode(0xe0), None);
    assert_eq!(session.decode(0x48), Some(Key::RawKey(KeyCode::ArrowUp)));
    assert_eq!(session.decode(0x48), Some(Key::Unicode('8')));
}

#[test]
fn unknown_scancode_decodes_to_nothing() {
    let mut session = KeyboardSession::new();
    assert_eq!(session.decode(0x7f), None);
    assert_eq!(session.decode(0x1e), Some(Key::Unicode('a')));
}

#[test]
fn raw_key_is_printed_by_name() {
    let mut session = KeyboardSession::new();
    let mut writer = fresh_writer();
    // 0x3b is the make code of F1.
    keyboard_interrupt_handler(&mut session, &mut writer, 0x3b);
    assert_eq!(row_text(&writer, BUFFER_HEIGHT - 1), "F1");
    let mut other = fresh_writer();
    print_key(&mut other, &Key::RawKey(KeyCode::ArrowLeft));
    assert_eq!(row_text(&other, BUFFER_HEIGHT - 1), "ArrowLeft");
}

#[test]
fn enter_key_breaks_the_line() {
    let mut session = KeyboardSession::new();
    let mut writer = fresh_writer();
    for scancode in [0x1e, 0x1c, 0x30] {
        keyboard_interrupt_handler(&mut session, &mut writer, scancode);
    }
    assert_eq!(row_text(&writer, BUFFER_HEIGHT - 2), "a");
    assert_eq!(row_text(&writer, BUFFER_HEIGHT - 1), "b");
}

#[test]
fn print_key_writes_the_character() {
    let mut writer = fresh_writer();
    print_key(&mut writer, &Key::Unicode('x'));
    print_key(&mut writer, &Key::Unicode('\u{e9}'));
    print_key(&mut writer, &Key::Unicode('y'));
    let expected = [b'x', 0xfe, 0xfe, b'y'];
    for (col, byte) in expected.iter().enumerate() {
        assert_eq!(writer.read(BUFFER_HEIGHT - 1, col).ascii_character, *byte);
    }
    assert_eq!(writer.column_position(), 4);
}

#[test]
fn show_key_leaves_the_console_alone_without_a_key() {
    let mut writer = fresh_writer();
    writer.write_string("ab");
    show_key(&mut writer, &None);
    assert_eq!(row_text(&writer, BUFFER_HEIGHT - 1), "ab");
    assert_eq!(writer.column_position(), 2);
    show_key(&mut writer, &Some(Key::Unicode('c')));
    assert_eq!(row_text(&writer, BUFFER_HEIGHT - 1), "abc");
}

#[test]
fn completed_event_passes_the_event_on() {
    let press = KeyEvent::new(KeyCode::A, KeyState::Down);
    let release = KeyEvent::new(KeyCode::ShiftLeft, KeyState::Up);
    assert_eq!(completed_event(Ok(Some(press.clone()))), Some(press));
    assert_eq!(completed_event(Ok(Some(release.clone()))), Some(release));
}

#[test]
fn completed_event_is_none_without_an_event() {
    assert_eq!(completed_event(Ok(None)), None);
    assert_eq!(completed_event(Err(Error::UnknownKeyCode)), None);
    assert_eq!(completed_event(Err(Error::ParityError)), None);
}

#[test]
fn sessions_fed_the_same_decode_the_same() {
    let scancodes = [0x2a, 0x1e, 0xe0, 0x48, 0x9e, 0xaa, 0x1e, 0x7f, 0x3b, 0x1c];
    let mut first = KeyboardSession::new();
    let mut second = KeyboardSession::new();
    for scancode in scancodes {
        assert_eq!(first.decode(scancode), second.decode(scancode));
    }
}
