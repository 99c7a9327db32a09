use blog_os::vga_buffer::{Color, ColorCode, ScreenChar, Writer, BUFFER_HEIGHT, BUFFER_WIDTH};

fn row_bytes(w: &Writer, row: usize) -> Vec<u8> {
    let mut out: Vec<u8> = Vec::new();
    let mut col = 0;
    while col < BUFFER_WIDTH {
        out.push(w.char_at(row, col).ascii_character);
        col += 1;
    }
    out
}

#[test]
fn trivial_assertion() {
    assert_eq!(1, 1);
}

#[test]
fn color_code_packs_background_high() {
    let code = ColorCode::new(Color::Yellow, Color::Black);
    assert_eq!(code.to_byte(), 0x0e);
    let code = ColorCode::new(Color::White, Color::Blue);
    assert_eq!(code.to_byte(), 0x1f);
    let code = ColorCode::new(Color::Black, Color::White);
    assert_eq!(code.to_byte(), 0xf0);
}

#[test]
fn new_writer_grid_is_blank() {
    let w = Writer::new(Color::Yellow, Color::Black);
    assert_eq!(w.cursor(), 0);
    let expected = ScreenChar {
        ascii_character: b' ',
        color_code: ColorCode::new(Color::Yellow, Color::Black),
    };
    assert_eq!(w.char_at(0, 0), expected);
    assert_eq!(w.char_at(BUFFER_HEIGHT - 1, BUFFER_WIDTH - 1), expected);
}

#[test]
fn printable_bytes_appear_verbatim() {
    let mut w = Writer::new(Color::Yellow, Color::Black);
    w.write_bytes(b"Az 0~!");
    let bottom = row_bytes(&w, BUFFER_HEIGHT - 1);
    assert_eq!(&bottom[0..6], b"Az 0~!");
    assert_eq!(w.cursor(), 6);
}

#[test]
fn unprintable_bytes_become_placeholder() {
    let mut w = Writer::new(Color::Yellow, Color::Black);
    w.write_bytes(&[0x00, 0x01, 0x07, 0x1f, 0x7f, 0x80, 0xff]);
    let bottom = row_bytes(&w, BUFFER_HEIGHT - 1);
    for col in 0..7 {
        assert_eq!(bottom[col], 0xfe);
    }
    // the boundary bytes of the printable range pass through unchanged
    let mut w = Writer::new(Color::Yellow, Color::Black);
    w.write_bytes(&[0x20, 0x7e]);
    let bottom = row_bytes(&w, BUFFER_HEIGHT - 1);
    assert_eq!(bottom[0], 0x20);
    assert_eq!(bottom[1], 0x7e);
}

#[test]
fn long_string_wraps_without_loss() {
    let mut w = Writer::new(Color::Yellow, Color::Black);
    let mut input: Vec<u8> = Vec::new();
    let mut i = 0;
    while i < 100 {
        input.push(b'a' + (i % 26) as u8);
        i += 1;
    }
    w.write_bytes(&input);
    // the first 80 bytes fill what is now the second-to-last row; the
    // remaining 20 start the bottom row
    let upper = row_bytes(&w, BUFFER_HEIGHT - 2);
    let bottom = row_bytes(&w, BUFFER_HEIGHT - 1);
    for col in 0..80 {
        assert_eq!(upper[col], input[col]);
    }
    for col in 0..20 {
        assert_eq!(bottom[col], input[80 + col]);
    }
    // the rest of the bottom row is still blank
    for col in 20..80 {
        assert_eq!(bottom[col], b' ');
    }
    assert_eq!(w.cursor(), 20);
}

#[test]
fn exactly_full_row_wraps_immediately() {
    let mut w = Writer::new(Color::Yellow, Color::Black);
    let input = [b'x'; 80];
    w.write_bytes(&input);
    // filling the last cell scrolls at once: the cursor never rests at
    // the width
    assert_eq!(w.cursor(), 0);
    let upper = row_bytes(&w, BUFFER_HEIGHT - 2);
    for col in 0..80 {
        assert_eq!(upper[col], b'x');
    }
    assert_eq!(row_bytes(&w, BUFFER_HEIGHT - 1)[0], b' ');
    // the next byte starts the fresh bottom row
    w.write_bytes(b"y");
    assert_eq!(w.cursor(), 1);
    assert_eq!(w.char_at(BUFFER_HEIGHT - 1, 0).ascii_character, b'y');
    assert_eq!(w.char_at(BUFFER_HEIGHT - 2, 0).ascii_character, b'x');
}

#[test]
fn scroll_keeps_recent_rows_in_order() {
    let mut w = Writer::new(Color::Yellow, Color::Black);
    w.write_string("first\nsecond\nthird\n");
    assert_eq!(w.cursor(), 0);
    assert_eq!(&row_bytes(&w, BUFFER_HEIGHT - 4)[0..5], b"first");
    assert_eq!(&row_bytes(&w, BUFFER_HEIGHT - 3)[0..6], b"second");
    assert_eq!(&row_bytes(&w, BUFFER_HEIGHT - 2)[0..5], b"third");
    assert_eq!(&row_bytes(&w, BUFFER_HEIGHT - 1)[0..1], b" ");
}

#[test]
fn overflow_discards_only_oldest() {
    let mut w = Writer::new(Color::Yellow, Color::Black);
    // more lines than the grid has rows: the first lines must fall off the top
    let mut i = 0;
    while i < 30 {
        let line = format!("line{:02}", i);
        w.write_string(&line);
        w.write_bytes(b"\n");
        i += 1;
    }
    assert_eq!(w.cursor(), 0);
    // rows 0..=23 hold lines 06..=29; the bottom row is blank after the scroll
    for row in 0..BUFFER_HEIGHT - 1 {
        let expected = format!("line{:02}", 30 - (BUFFER_HEIGHT - 1) + row);
        assert_eq!(&row_bytes(&w, row)[0..6], expected.as_bytes());
    }
    assert_eq!(&row_bytes(&w, BUFFER_HEIGHT - 1)[0..1], b" ");
}

#[test]
fn hello_world_end_to_end() {
    let mut w = Writer::new(Color::Yellow, Color::Black);
    w.write_string("Hello World!");
    let bottom = row_bytes(&w, BUFFER_HEIGHT - 1);
    assert_eq!(&bottom[0..12], b"Hello World!");
    // 200 newline-terminated lines: the grid stays 25 by 80, the most
    // recent line sits just above the cleared bottom row
    let mut i = 0;
    while i < 200 {
        let line = format!("pass {:03}", i);
        w.write_string(&line);
        w.write_bytes(b"\n");
        i += 1;
    }
    assert_eq!(w.cursor(), 0);
    assert_eq!(&row_bytes(&w, BUFFER_HEIGHT - 2)[0..8], b"pass 199");
    // nothing ever lands past column 79: every cell of every row is readable
    // and holds a displayable byte
    for row in 0..BUFFER_HEIGHT {
        let bytes = row_bytes(&w, row);
        assert_eq!(bytes.len(), BUFFER_WIDTH);
        for &b in bytes.iter() {
            assert!((0x20..=0x7e).contains(&b) || b == 0xfe);
        }
    }
}

#[test]
fn test_println_simple() {
    let mut w = Writer::new(Color::Yellow, Color::Black);
    w.write_string("test_println_simple output\n");
    assert_eq!(
        &row_bytes(&w, BUFFER_HEIGHT - 2)[0..26],
        b"test_println_simple output"
    );
}

#[test]
fn test_println_many() {
    let mut w = Writer::new(Color::Yellow, Color::Black);
    for _ in 0..200 {
        w.write_string("test_println_many output\n");
    }
    assert_eq!(
        &row_bytes(&w, BUFFER_HEIGHT - 2)[0..24],
        b"test_println_many output"
    );
    assert_eq!(w.cursor(), 0);
}

#[test]
fn test_println_output() {
    let mut w = Writer::new(Color::Yellow, Color::Black);
    let s = "Some test string that fits on a single line";
    w.write_string("\n");
    w.write_string(s);
    w.write_string("\n");
    for (i, c) in s.chars().enumerate() {
        let screen_char = w.char_at(BUFFER_HEIGHT - 2, i);
        assert_eq!(char::from(screen_char.ascii_character), c);
    }
}
