use vga_console::vga_buffer::Color;
use vga_console::vga_buffer::ColorCode;
use vga_console::vga_buffer::Writer;
use vga_console::vga_buffer::BUFFER_HEIGHT;
use vga_console::vga_buffer::BUFFER_WIDTH;

const DEFAULT: u8 = 10;

fn cell(w: &Writer, row: usize, col: usize) -> (u8, u8) {
    let c = w.buffer[row][col];
    (c.ascii_character, c.color_code.0)
}

#[test]
fn color_code_packs_background_and_foreground() {
    assert_eq!(ColorCode::new(Color::LightGreen, Color::Black).0, 10);
    assert_eq!(ColorCode::new(Color::Yellow, Color::Black).0, 14);
    assert_eq!(ColorCode::new(Color::Magenta, Color::Black).0, 5);
    assert_eq!(ColorCode::new(Color::LightCyan, Color::Black).0, 11);
    assert_eq!(ColorCode::new(Color::LightRed, Color::Black).0, 12);
    assert_eq!(ColorCode::new(Color::White, Color::Blue).0, 1 * 16 + 15);
}

#[test]
fn new_writer_is_blank() {
    let w = Writer::new();
    assert_eq!(w.column_position, 0);
    assert_eq!(w.color_code.0, DEFAULT);
    assert_eq!(w.buffer.len(), BUFFER_HEIGHT);
    for row in 0..BUFFER_HEIGHT {
        assert_eq!(w.buffer[row].len(), BUFFER_WIDTH);
        for col in 0..BUFFER_WIDTH {
            assert_eq!(cell(&w, row, col), (0x20, DEFAULT));
        }
    }
}

#[test]
fn write_byte_places_glyph_and_advances() {
    let mut w = Writer::new();
    w.write_byte(b'A');
    assert_eq!(cell(&w, BUFFER_HEIGHT - 1, 0), (b'A', DEFAULT));
    assert_eq!(w.column_position, 1);
}

#[test]
fn newline_scrolls_and_resets_cursor() {
    let mut w = Writer::new();
    w.write_byte(b'A');
    w.write_byte(b'\n');
    assert_eq!(w.column_position, 0);
    assert_eq!(cell(&w, BUFFER_HEIGHT - 2, 0), (b'A', DEFAULT));
    for col in 0..BUFFER_WIDTH {
        assert_eq!(cell(&w, BUFFER_HEIGHT - 1, col), (0x20, DEFAULT));
    }
}

#[test]
fn write_string_with_newline() {
    let mut w = Writer::new();
    w.write_string("AB\nC");
    assert_eq!(cell(&w, BUFFER_HEIGHT - 2, 0), (b'A', DEFAULT));
    assert_eq!(cell(&w, BUFFER_HEIGHT - 2, 1), (b'B', DEFAULT));
    assert_eq!(cell(&w, BUFFER_HEIGHT - 1, 0), (b'C', DEFAULT));
    assert_eq!(w.column_position, 1);
}

// Writing width + 1 printable characters from an empty row scrolls exactly
// once: the filled row moves up and the bottom row holds the single
// overflowing character at column 0.
#[test]
fn eighty_one_chars_scroll_once() {
    let mut w = Writer::new();
    let s: String = std::iter::repeat('A').take(BUFFER_WIDTH + 1).collect();
    w.write_string(&s);
    assert_eq!(w.column_position, 1);
    for col in 0..BUFFER_WIDTH {
        assert_eq!(cell(&w, BUFFER_HEIGHT - 2, col), (b'A', DEFAULT));
    }
    assert_eq!(cell(&w, BUFFER_HEIGHT - 1, 0), (b'A', DEFAULT));
    for col in 1..BUFFER_WIDTH {
        assert_eq!(cell(&w, BUFFER_HEIGHT - 1, col), (0x20, DEFAULT));
    }
}

#[test]
fn cursor_stays_in_range_after_any_writes() {
    let mut w = Writer::new();
    let exactly_full: String = std::iter::repeat('x').take(BUFFER_WIDTH).collect();
    let inputs = ["", "a", "hello\nworld", &exactly_full, "\n\n\n", "\t\u{1}\u{7f}"];
    for s in inputs {
        w.write_string(s);
        assert!(w.column_position < BUFFER_WIDTH);
    }
}

#[test]
fn nonprintable_bytes_render_placeholder() {
    let mut w = Writer::new();
    w.write_string("\u{1}");
    assert_eq!(cell(&w, BUFFER_HEIGHT - 1, 0), (0xfe, DEFAULT));
    w.write_string("\t");
    assert_eq!(cell(&w, BUFFER_HEIGHT - 1, 1), (0xfe, DEFAULT));
    // a two-byte character gives two placeholder glyphs, one per byte
    w.write_string("\u{e9}");
    assert_eq!(cell(&w, BUFFER_HEIGHT - 1, 2), (0xfe, DEFAULT));
    assert_eq!(cell(&w, BUFFER_HEIGHT - 1, 3), (0xfe, DEFAULT));
    assert_eq!(w.column_position, 4);
}

// Scrolling height-many times from a full grid leaves every cell blank in
// the current color: nothing of the discarded rows survives.
#[test]
fn scrolling_height_times_blanks_the_grid() {
    let mut w = Writer::new();
    for _ in 0..BUFFER_HEIGHT {
        let line: String = std::iter::repeat('Z').take(BUFFER_WIDTH - 1).collect();
        w.write_string(&line);
        w.write_byte(b'\n');
    }
    for _ in 0..BUFFER_HEIGHT {
        w.new_line();
    }
    for row in 0..BUFFER_HEIGHT {
        for col in 0..BUFFER_WIDTH {
            assert_eq!(cell(&w, row, col), (0x20, DEFAULT));
        }
    }
    assert_eq!(w.column_position, 0);
}

// A warn call renders "[WARN] X" in the warn color on its own line, then the
// color reverts to the default and a new line begins.
#[test]
fn warn_renders_tag_and_message_on_own_line() {
    let mut w = Writer::new();
    w.warn("X");
    let expected = b"[WARN] X";
    for (i, &b) in expected.iter().enumerate() {
        assert_eq!(cell(&w, BUFFER_HEIGHT - 2, i), (b, 14));
    }
    for col in expected.len()..BUFFER_WIDTH {
        assert_eq!(cell(&w, BUFFER_HEIGHT - 2, col), (0x20, DEFAULT));
    }
    for col in 0..BUFFER_WIDTH {
        assert_eq!(cell(&w, BUFFER_HEIGHT - 1, col), (0x20, DEFAULT));
    }
    assert_eq!(w.color_code.0, DEFAULT);
    assert_eq!(w.column_position, 0);
}

#[test]
fn leveled_output_uses_level_colors() {
    let mut w = Writer::new();
    w.kernel("k");
    assert_eq!(cell(&w, BUFFER_HEIGHT - 2, 0), (b'[', 5));
    w.info("i");
    assert_eq!(cell(&w, BUFFER_HEIGHT - 2, 0), (b'[', 11));
    w.error("e");
    assert_eq!(cell(&w, BUFFER_HEIGHT - 2, 0), (b'[', 12));
    assert_eq!(w.color_code.0, DEFAULT);
    assert_eq!(w.column_position, 0);
}

#[test]
fn change_color_affects_later_writes_only() {
    let mut w = Writer::new();
    w.write_byte(b'a');
    w.change_color(ColorCode::new(Color::Red, Color::Blue));
    w.write_byte(b'b');
    assert_eq!(cell(&w, BUFFER_HEIGHT - 1, 0), (b'a', DEFAULT));
    assert_eq!(cell(&w, BUFFER_HEIGHT - 1, 1), (b'b', 1 * 16 + 4));
    w.change_to_default_color();
    assert_eq!(w.color_code.0, DEFAULT);
}

#[test]
fn clear_row_blanks_one_row_in_current_color() {
    let mut w = Writer::new();
    w.write_string("abc");
    w.change_color(ColorCode::new(Color::Yellow, Color::Black));
    w.clear_row(BUFFER_HEIGHT - 1);
    for col in 0..BUFFER_WIDTH {
        assert_eq!(cell(&w, BUFFER_HEIGHT - 1, col), (0x20, 14));
    }
}
