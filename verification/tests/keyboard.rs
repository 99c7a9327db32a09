use blog_os::keyboard::{KeyEvent, Keyboard, EXTENDED_PREFIX};
use blog_os::machine::Machine;
use blog_os::vga_buffer::{BUFFER_HEIGHT, BUFFER_WIDTH};

fn machine_row_text(m: &Machine, row: usize) -> Vec<u8> {
    let mut out: Vec<u8> = Vec::new();
    let mut col = 0;
    while col < BUFFER_WIDTH {
        out.push(m.read_char(row, col).ascii_character);
        col += 1;
    }
    out
}

#[test]
fn decoder_maps_presses_to_characters() {
    let mut k = Keyboard::new();
    assert_eq!(k.add_byte(0x1e), Some(KeyEvent::Char(b'a')));
    assert_eq!(k.add_byte(0x23), Some(KeyEvent::Char(b'h')));
    assert_eq!(k.add_byte(0x39), Some(KeyEvent::Char(b' ')));
    assert_eq!(k.add_byte(0x02), Some(KeyEvent::Char(b'1')));
    assert_eq!(k.add_byte(0x1c), Some(KeyEvent::Char(b'\n')));
}

#[test]
fn decoder_absorbs_releases() {
    let mut k = Keyboard::new();
    assert_eq!(k.add_byte(0x1e), Some(KeyEvent::Char(b'a')));
    // the release of the same key completes no event
    assert_eq!(k.add_byte(0x9e), None);
    assert_eq!(k.add_byte(0x1f), Some(KeyEvent::Char(b's')));
}

#[test]
fn decoder_waits_for_the_second_byte() {
    let mut k = Keyboard::new();
    // the prefix alone is incomplete input, not an error
    assert_eq!(k.add_byte(EXTENDED_PREFIX), None);
    // the second byte completes a non-printable key identity
    assert_eq!(k.add_byte(0x48), Some(KeyEvent::RawExtended(0x48)));
    // plain non-printable keys resolve to their own identity
    assert_eq!(k.add_byte(0x01), Some(KeyEvent::Raw(0x01)));
}

#[test]
fn keyboard_handler_types_on_the_console() {
    let mut m = Machine::boot();
    assert!(m.deliver_keyboard(0x23)); // h
    assert!(m.deliver_keyboard(0xa3)); // release of h: absorbed
    assert!(m.deliver_keyboard(0x17)); // i
    let bottom = machine_row_text(&m, BUFFER_HEIGHT - 1);
    assert_eq!(&bottom[0..2], b"hi");
    assert_eq!(m.console_cursor(), 2);
    // enter scrolls the grid, as a written newline does
    assert!(m.deliver_keyboard(0x1c));
    assert_eq!(m.console_cursor(), 0);
    let above = machine_row_text(&m, BUFFER_HEIGHT - 2);
    assert_eq!(&above[0..2], b"hi");
}

#[test]
fn keyboard_handler_reports_nonprintable_keys() {
    let mut m = Machine::boot();
    // escape: a key that types nothing has its identity reported instead
    assert!(m.deliver_keyboard(0x01));
    assert_eq!(m.console_cursor(), 0);
    assert_eq!(&machine_row_text(&m, BUFFER_HEIGHT - 2)[0..5], b"key 1");
    // a two-byte key is reported once its second byte arrives
    assert!(m.deliver_keyboard(EXTENDED_PREFIX));
    assert!(m.deliver_keyboard(0x48));
    assert_eq!(&machine_row_text(&m, BUFFER_HEIGHT - 2)[0..9], b"key E0+72");
}

#[test]
fn keyboard_acknowledges_even_on_decode_miss() {
    let mut m = Machine::boot();
    // a release byte completes no event, yet the line is acknowledged:
    // the next scancode is still delivered
    assert!(m.deliver_keyboard(0x9e));
    assert!(m.deliver_keyboard(0x1e));
    let bottom = machine_row_text(&m, BUFFER_HEIGHT - 1);
    assert_eq!(bottom[0], b'a');
}
