use vga_text::Color;
use vga_text::ColorCode;
use vga_text::Writer;
use vga_text::BUFFER_HEIGHT;
use vga_text::BUFFER_WIDTH;
use vga_text::_print;

fn fresh_writer() -> Writer {
    Writer::new(ColorCode::new(Color::Yellow, Color::Black))
}

fn bottom_text(w: &Writer, len: usize) -> String {
    let row = BUFFER_HEIGHT - 1;
    let mut out = String::new();
    for col in 0..len {
        out.push(char::from(w.cell_at(row, col).ascii_character));
    }
    out
}

fn row_text(w: &Writer, row: usize, len: usize) -> String {
    let mut out = String::new();
    for col in 0..len {
        out.push(char::from(w.cell_at(row, col).ascii_character));
    }
    out
}

#[test]
fn color_code_packing() {
    assert_eq!(ColorCode::new(Color::Yellow, Color::Black).as_byte(), 0x0e);
    assert_eq!(ColorCode::new(Color::White, Color::Blue).as_byte(), 0x1f);
    assert_eq!(ColorCode::new(Color::Black, Color::White).as_byte(), 0xf0);
    assert_eq!(ColorCode::new(Color::LightCyan, Color::DarkGray).as_byte(), 0x8b);
}

#[test]
fn fresh_writer_is_blank() {
    let color = ColorCode::new(Color::Yellow, Color::Black);
    let w = Writer::new(color);
    assert_eq!(w.column_position(), 0);
    for row in 0..BUFFER_HEIGHT {
        for col in 0..BUFFER_WIDTH {
            let cell = w.cell_at(row, col);
            assert_eq!(cell.ascii_character, b' ');
            assert_eq!(cell.color_code, color);
        }
    }
}

#[test]
fn hello_world_bottom_row() {
    let mut w = fresh_writer();
    w.write_string("Hello World!");
    assert_eq!(bottom_text(&w, 12), "Hello World!");
    assert_eq!(w.column_position(), 12);
}

#[test]
fn round_trip_short_string() {
    let mut w = fresh_writer();
    let s = "printable ASCII round trip";
    w.write_string(s);
    assert_eq!(bottom_text(&w, s.len()), s);
    assert_eq!(w.column_position(), s.len());
}

#[test]
fn second_line_starts_at_column_zero() {
    let mut w = fresh_writer();
    w.write_string("first\n");
    assert_eq!(w.column_position(), 0);
    w.write_string("second");
    assert_eq!(bottom_text(&w, 6), "second");
    assert_eq!(row_text(&w, BUFFER_HEIGHT - 2, 5), "first");
}

#[test]
fn scroll_moves_marker_up_and_discards_it() {
    let mut w = fresh_writer();
    w.write_string("XYZ\n");
    assert_eq!(row_text(&w, BUFFER_HEIGHT - 2, 3), "XYZ");
    w.write_string("\n\n\n");
    assert_eq!(row_text(&w, BUFFER_HEIGHT - 5, 3), "XYZ");
    for _ in 0..BUFFER_HEIGHT {
        w.write_string("\n");
    }
    for row in 0..BUFFER_HEIGHT {
        for col in 0..BUFFER_WIDTH {
            assert_eq!(w.cell_at(row, col).ascii_character, b' ');
        }
    }
}

#[test]
fn two_hundred_lines_keep_last_screenful() {
    let mut w = fresh_writer();
    for i in 0..200 {
        w.write_string(&format!("{:03}\n", i));
    }
    // The bottom row was just cleared by the final newline; the rows above
    // hold the last height-1 lines in order.
    for col in 0..BUFFER_WIDTH {
        assert_eq!(w.cell_at(BUFFER_HEIGHT - 1, col).ascii_character, b' ');
    }
    for k in 0..(BUFFER_HEIGHT - 1) {
        let expected = format!("{:03}", 200 - (BUFFER_HEIGHT - 1 - k));
        assert_eq!(row_text(&w, k, 3), expected);
    }
}

#[test]
fn wrap_occurs_before_byte_beyond_width() {
    let mut w = fresh_writer();
    let full_line: String = std::iter::repeat('x').take(BUFFER_WIDTH).collect();
    w.write_string(&full_line);
    // Exactly width bytes: the cursor sits at the boundary, nothing wrapped yet.
    assert_eq!(w.column_position(), BUFFER_WIDTH);
    assert_eq!(bottom_text(&w, BUFFER_WIDTH), full_line);
    // The next byte wraps: the full row moves up, the byte lands at column 0.
    w.write_string("y");
    assert_eq!(w.column_position(), 1);
    assert_eq!(w.cell_at(BUFFER_HEIGHT - 1, 0).ascii_character, b'y');
    assert_eq!(row_text(&w, BUFFER_HEIGHT - 2, BUFFER_WIDTH), full_line);
}

#[test]
fn wrap_in_the_middle_of_a_string() {
    let mut w = fresh_writer();
    let line: String = std::iter::repeat('a').take(BUFFER_WIDTH - 2).collect();
    w.write_string(&line);
    w.write_string("bcde");
    assert_eq!(w.column_position(), 2);
    assert_eq!(bottom_text(&w, 2), "de");
    assert_eq!(
        row_text(&w, BUFFER_HEIGHT - 2, BUFFER_WIDTH),
        format!("{}bc", line)
    );
}

#[test]
fn unprintable_bytes_become_replacement_glyph() {
    let mut w = fresh_writer();
    w.write_string("a\u{1}b\u{7f}c");
    assert_eq!(w.cell_at(BUFFER_HEIGHT - 1, 0).ascii_character, b'a');
    assert_eq!(w.cell_at(BUFFER_HEIGHT - 1, 1).ascii_character, 0xfe);
    assert_eq!(w.cell_at(BUFFER_HEIGHT - 1, 2).ascii_character, b'b');
    assert_eq!(w.cell_at(BUFFER_HEIGHT - 1, 3).ascii_character, 0xfe);
    assert_eq!(w.cell_at(BUFFER_HEIGHT - 1, 4).ascii_character, b'c');
    assert_eq!(w.column_position(), 5);
}

#[test]
fn multibyte_character_becomes_one_glyph_per_byte() {
    let mut w = fresh_writer();
    // U+00E9 encodes to two bytes; the driver works on raw bytes, so both
    // are outside the printable range and each becomes the replacement glyph.
    w.write_string("\u{e9}");
    assert_eq!(w.cell_at(BUFFER_HEIGHT - 1, 0).ascii_character, 0xfe);
    assert_eq!(w.cell_at(BUFFER_HEIGHT - 1, 1).ascii_character, 0xfe);
    assert_eq!(w.column_position(), 2);
}

#[test]
fn write_byte_accepts_every_byte_raw() {
    let mut w = fresh_writer();
    // Filtering happens one layer up, in write_string: the raw byte layer
    // stores whatever it is given.
    w.write_byte(0x01);
    assert_eq!(w.cell_at(BUFFER_HEIGHT - 1, 0).ascii_character, 0x01);
    assert_eq!(w.column_position(), 1);
}

#[test]
fn column_stays_within_width() {
    let mut w = fresh_writer();
    let mixed = "some text\nmore\u{1}text and a very long tail ".repeat(12);
    for piece in mixed.split_inclusive(' ') {
        w.write_string(piece);
        assert!(w.column_position() <= BUFFER_WIDTH);
    }
}

#[test]
fn newline_clears_bottom_row_with_current_color() {
    let color = ColorCode::new(Color::LightGreen, Color::Red);
    let mut w = Writer::new(color);
    w.write_string("something\n");
    for col in 0..BUFFER_WIDTH {
        let cell = w.cell_at(BUFFER_HEIGHT - 1, col);
        assert_eq!(cell.ascii_character, b' ');
        assert_eq!(cell.color_code, color);
    }
}

#[test]
fn glyphs_carry_the_current_color() {
    let color = ColorCode::new(Color::Pink, Color::Brown);
    let mut w = Writer::new(color);
    w.write_string("Q");
    let cell = w.cell_at(BUFFER_HEIGHT - 1, 0);
    assert_eq!(cell.ascii_character, b'Q');
    assert_eq!(cell.color_code, color);
    assert_eq!(w.color_code(), color);
}

#[test]
fn print_bridge_forwards_rendered_text() {
    let mut w = fresh_writer();
    _print(&mut w, &format!("value: {} hex: 0x{:X}", 42, 0xbeefu32));
    let expected = "value: 42 hex: 0xBEEF";
    assert_eq!(bottom_text(&w, expected.len()), expected);
    assert_eq!(w.column_position(), expected.len());
}
