use spin::Mutex;
use vga_console::console::{_print, try_print};
use vga_console::{Buffer, Color, ColorCode, ScreenChar, Writer, BUFFER_HEIGHT, BUFFER_WIDTH};
use volatile::Volatile;

fn cell(b: u8, attr: ColorCode) -> ScreenChar {
    ScreenChar { ascii_character: b, color_code: attr }
}

fn writer_on(fill: ScreenChar, attr: ColorCode) -> Writer {
    let bytes = [fill.ascii_character, fill.color_code.value()];
    let cells: [[Volatile<[u8; 2]>; BUFFER_WIDTH]; BUFFER_HEIGHT] =
        core::array::from_fn(|_| core::array::from_fn(|_| Volatile::new(bytes)));
    Writer::new(attr, Box::leak(Box::new(Buffer::from_cells(cells))))
}

fn light_cyan() -> ColorCode {
    ColorCode::new(Color::LightCyan, Color::Black)
}

fn blank_writer(attr: ColorCode) -> Writer {
    writer_on(cell(b' ', attr), attr)
}

fn bottom_row(w: &Writer) -> Vec<ScreenChar> {
    (0..BUFFER_WIDTH).map(|c| w.read_cell(BUFFER_HEIGHT - 1, c)).collect()
}

fn all_cells(w: &Writer) -> Vec<ScreenChar> {
    let mut v = Vec::new();
    for r in 0..BUFFER_HEIGHT {
        for c in 0..BUFFER_WIDTH {
            v.push(w.read_cell(r, c));
        }
    }
    v
}

#[test]
fn color_code_packs_nibbles() {
    assert_eq!(ColorCode::new(Color::LightCyan, Color::Black).value(), 0x0B);
    assert_eq!(ColorCode::new(Color::Yellow, Color::Black).value(), 0x0E);
    assert_eq!(ColorCode::new(Color::White, Color::Blue).value(), 0x1F);
    assert_eq!(ColorCode::new(Color::Black, Color::White).value(), 0xF0);
    assert_eq!(Color::Pink.number(), 13);
}

#[test]
fn hello_world_on_empty_grid() {
    let attr = light_cyan();
    let mut w = blank_writer(attr);
    w.write_string("Hello, World!");
    let text = b"Hello, World!";
    for (i, &b) in text.iter().enumerate() {
        let c = w.read_cell(BUFFER_HEIGHT - 1, i);
        assert_eq!(c.ascii_character, b);
        assert_eq!(c.color_code.value(), 0x0B);
    }
    assert_eq!(w.column_position(), 13);
    assert_eq!(w.read_cell(BUFFER_HEIGHT - 1, 13), cell(b' ', attr));
}

#[test]
fn every_printable_byte_lands_at_cursor() {
    let attr = ColorCode::new(Color::Green, Color::Red);
    let mut w = blank_writer(attr);
    for b in 0x20u8..=0x7e {
        if w.column_position() == BUFFER_WIDTH {
            w.write_byte(b'\n');
        }
        let at = w.column_position();
        w.write_byte(b);
        assert_eq!(w.read_cell(BUFFER_HEIGHT - 1, at), cell(b, attr));
        assert_eq!(w.column_position(), at + 1);
    }
}

#[test]
fn full_row_wraps_on_next_byte() {
    let attr = light_cyan();
    let mut w = blank_writer(attr);
    for _ in 0..BUFFER_WIDTH {
        w.write_byte(b'a');
    }
    assert_eq!(w.column_position(), BUFFER_WIDTH);
    assert_eq!(bottom_row(&w), vec![cell(b'a', attr); BUFFER_WIDTH]);
    w.write_byte(b'b');
    assert_eq!(w.column_position(), 1);
    assert_eq!(w.read_cell(BUFFER_HEIGHT - 2, 0), cell(b'a', attr));
    assert_eq!(w.read_cell(BUFFER_HEIGHT - 1, 0), cell(b'b', attr));
    assert_eq!(w.read_cell(BUFFER_HEIGHT - 1, 1), cell(b' ', attr));
}

#[test]
fn row_of_bytes_after_wrap_scrolls_once() {
    let attr = light_cyan();
    let mut w = blank_writer(attr);
    w.write_string("xyz");
    let line: Vec<u8> = (0..BUFFER_WIDTH).map(|i| b'A' + (i % 26) as u8).collect();
    for &b in &line {
        w.write_byte(b);
    }
    assert_eq!(w.column_position(), 3);
    // the old bottom row, finished by the bytes before the wrap, moved up once
    assert_eq!(w.read_cell(BUFFER_HEIGHT - 2, 0), cell(b'x', attr));
    assert_eq!(w.read_cell(BUFFER_HEIGHT - 2, 3), cell(line[0], attr));
    assert_eq!(
        w.read_cell(BUFFER_HEIGHT - 2, BUFFER_WIDTH - 1),
        cell(line[BUFFER_WIDTH - 4], attr)
    );
    assert_eq!(w.read_cell(BUFFER_HEIGHT - 3, 0), cell(b' ', attr));
    // the new bottom row holds only what came after the wrap
    assert_eq!(w.read_cell(BUFFER_HEIGHT - 1, 0), cell(line[BUFFER_WIDTH - 3], attr));
    assert_eq!(w.read_cell(BUFFER_HEIGHT - 1, 2), cell(line[BUFFER_WIDTH - 1], attr));
    assert_eq!(w.read_cell(BUFFER_HEIGHT - 1, 3), cell(b' ', attr));
}

#[test]
fn newline_shifts_rows_and_blanks_bottom() {
    let attr = light_cyan();
    let mut w = writer_on(cell(b'#', ColorCode::new(Color::Red, Color::Black)), attr);
    w.write_string("top");
    let before = all_cells(&w);
    w.write_byte(b'\n');
    assert_eq!(w.column_position(), 0);
    for r in 0..BUFFER_HEIGHT - 1 {
        for c in 0..BUFFER_WIDTH {
            assert_eq!(w.read_cell(r, c), before[(r + 1) * BUFFER_WIDTH + c]);
        }
    }
    assert_eq!(bottom_row(&w), vec![cell(b' ', attr); BUFFER_WIDTH]);
}

#[test]
fn scroll_reclears_with_current_attribute() {
    let old_attr = ColorCode::new(Color::White, Color::Blue);
    let attr = ColorCode::new(Color::Yellow, Color::Black);
    let mut w = writer_on(cell(b' ', old_attr), attr);
    w.write_byte(b'\n');
    assert_eq!(w.read_cell(BUFFER_HEIGHT - 1, 5), cell(b' ', attr));
    assert_eq!(w.read_cell(BUFFER_HEIGHT - 2, 5), cell(b' ', old_attr));
}

#[test]
fn unprintable_byte_becomes_placeholder() {
    let attr = light_cyan();
    let mut w = blank_writer(attr);
    w.write_string("a\u{1}b");
    assert_eq!(w.read_cell(BUFFER_HEIGHT - 1, 0), cell(b'a', attr));
    assert_eq!(w.read_cell(BUFFER_HEIGHT - 1, 1), cell(0xfe, attr));
    assert_eq!(w.read_cell(BUFFER_HEIGHT - 1, 2), cell(b'b', attr));
    assert_eq!(w.column_position(), 3);
}

#[test]
fn multibyte_character_becomes_placeholders() {
    let attr = light_cyan();
    let mut w = blank_writer(attr);
    w.write_string("\u{e9}\t");
    assert_eq!(w.read_cell(BUFFER_HEIGHT - 1, 0), cell(0xfe, attr));
    assert_eq!(w.read_cell(BUFFER_HEIGHT - 1, 1), cell(0xfe, attr));
    assert_eq!(w.read_cell(BUFFER_HEIGHT - 1, 2), cell(0xfe, attr));
    assert_eq!(w.column_position(), 3);
}

#[test]
fn write_byte_does_not_filter() {
    let attr = light_cyan();
    let mut w = blank_writer(attr);
    w.write_byte(0x01);
    assert_eq!(w.read_cell(BUFFER_HEIGHT - 1, 0), cell(0x01, attr));
}

#[test]
fn page_of_newlines_blanks_everything() {
    let attr = light_cyan();
    let mut w = writer_on(cell(b'#', ColorCode::new(Color::Red, Color::Black)), attr);
    w.write_string("some text");
    for _ in 0..BUFFER_HEIGHT {
        w.write_byte(b'\n');
    }
    assert_eq!(w.column_position(), 0);
    assert_eq!(all_cells(&w), vec![cell(b' ', attr); BUFFER_WIDTH * BUFFER_HEIGHT]);
}

#[test]
fn newline_in_text_starts_new_line() {
    let attr = light_cyan();
    let mut w = blank_writer(attr);
    w.write_string("ab\ncd");
    assert_eq!(w.read_cell(BUFFER_HEIGHT - 2, 0), cell(b'a', attr));
    assert_eq!(w.read_cell(BUFFER_HEIGHT - 2, 1), cell(b'b', attr));
    assert_eq!(w.read_cell(BUFFER_HEIGHT - 1, 0), cell(b'c', attr));
    assert_eq!(w.read_cell(BUFFER_HEIGHT - 1, 1), cell(b'd', attr));
    assert_eq!(w.column_position(), 2);
}

#[test]
fn writes_compose() {
    let attr = light_cyan();
    let mut split = blank_writer(attr);
    let mut whole = blank_writer(attr);
    split.write_string("first line\nsecond");
    split.write_string(" and more\n\u{7}end");
    whole.write_string("first line\nsecond and more\n\u{7}end");
    assert_eq!(all_cells(&split), all_cells(&whole));
    assert_eq!(split.column_position(), whole.column_position());
}

#[test]
fn print_goes_through_lock() {
    let attr = light_cyan();
    let console = Mutex::new(blank_writer(attr));
    _print(&console, "hi");
    _print(&console, "!");
    let w = console.lock();
    assert_eq!(w.read_cell(BUFFER_HEIGHT - 1, 0), cell(b'h', attr));
    assert_eq!(w.read_cell(BUFFER_HEIGHT - 1, 2), cell(b'!', attr));
    assert_eq!(w.column_position(), 3);
}

#[test]
fn try_print_gives_up_while_locked() {
    let attr = light_cyan();
    let console = Mutex::new(blank_writer(attr));
    {
        let _held = console.lock();
        assert!(!try_print(&console, "lost"));
    }
    assert!(try_print(&console, "ok"));
    let w = console.lock();
    assert_eq!(w.read_cell(BUFFER_HEIGHT - 1, 0), cell(b'o', attr));
    assert_eq!(w.column_position(), 2);
}
