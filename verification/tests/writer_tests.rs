use rust_os::color::{Color, ColorCode};
use rust_os::vga_buffer::{Writer, BLANK_BYTE, BUFFER_HEIGHT, BUFFER_WIDTH, PLACEHOLDER_BYTE};

const ALL_COLORS: [Color; 16] = [
    Color::Black,
    Color::Blue,
    Color::Green,
    Color::Cyan,
    Color::Red,
    Color::Magenta,
    Color::Brown,
    Color::LightGray,
    Color::DarkGray,
    Color::LightBlue,
    Color::LightGreen,
    Color::LightCyan,
    Color::LightRed,
    Color::Pink,
    Color::Yellow,
    Color::White,
];

fn yellow_on_black() -> ColorCode {
    ColorCode::new(Color::Yellow, Color::Black)
}

#[test]
fn color_codes_are_the_fixed_palette() {
    for (i, color) in ALL_COLORS.iter().enumerate() {
        assert_eq!(color.code(), i as u8);
    }
}

#[test]
fn attribute_nibbles_recover_the_color_pair() {
    for &fg in ALL_COLORS.iter() {
        for &bg in ALL_COLORS.iter() {
            let attr = ColorCode::new(fg, bg);
            assert_eq!(attr.byte() & 0x0f, fg.code());
            assert_eq!(attr.byte() >> 4, bg.code());
        }
    }
}

#[test]
fn attribute_packs_background_high_foreground_low() {
    let attr = ColorCode::new(Color::Yellow, Color::Black);
    assert_eq!(attr.byte(), 0x0e);
    let attr = ColorCode::new(Color::White, Color::Blue);
    assert_eq!(attr.byte(), 0x1f);
}

#[test]
fn printable_byte_is_rendered_as_itself() {
    for b in 0x20u8..=0x7e {
        let mut writer = Writer::new(yellow_on_black());
        let s = String::from_utf8(vec![b]).unwrap();
        writer.write_string(&s);
        assert_eq!(writer.char_at(BUFFER_HEIGHT - 1, 0).ascii_character, b);
        assert_eq!(writer.char_at(BUFFER_HEIGHT - 1, 0).color_code, yellow_on_black());
        assert_eq!(writer.column_position(), 1);
    }
}

#[test]
fn unprintable_byte_is_rendered_as_placeholder() {
    let mut writer = Writer::new(yellow_on_black());
    writer.write_string("\u{1}");
    assert_eq!(writer.char_at(BUFFER_HEIGHT - 1, 0).ascii_character, PLACEHOLDER_BYTE);
    writer.write_string("\u{7f}");
    assert_eq!(writer.char_at(BUFFER_HEIGHT - 1, 1).ascii_character, PLACEHOLDER_BYTE);
    assert_eq!(writer.column_position(), 2);
}

#[test]
fn full_row_fills_left_to_right_and_one_more_wraps() {
    let mut writer = Writer::new(yellow_on_black());
    for i in 0..BUFFER_WIDTH {
        let b = 0x20 + (i % 0x5f) as u8;
        writer.write_byte(b);
    }
    assert_eq!(writer.column_position(), BUFFER_WIDTH);
    for i in 0..BUFFER_WIDTH {
        let b = 0x20 + (i % 0x5f) as u8;
        assert_eq!(writer.char_at(BUFFER_HEIGHT - 1, i).ascii_character, b);
    }
    writer.write_byte(b'X');
    assert_eq!(writer.column_position(), 1);
    assert_eq!(writer.char_at(BUFFER_HEIGHT - 1, 0).ascii_character, b'X');
    for i in 1..BUFFER_WIDTH {
        assert_eq!(writer.char_at(BUFFER_HEIGHT - 1, i).ascii_character, BLANK_BYTE);
    }
    // The filled row scrolled up by one.
    for i in 0..BUFFER_WIDTH {
        let b = 0x20 + (i % 0x5f) as u8;
        assert_eq!(writer.char_at(BUFFER_HEIGHT - 2, i).ascii_character, b);
    }
}

#[test]
fn line_transition_shifts_every_row_up_and_clears_the_bottom() {
    let mut writer = Writer::new(yellow_on_black());
    writer.write_string("abc\n");
    writer.write_string("def");
    writer.write_byte(b'\n');
    assert_eq!(writer.column_position(), 0);
    // Row height-3 now holds "abc", row height-2 holds "def".
    assert_eq!(writer.char_at(BUFFER_HEIGHT - 3, 0).ascii_character, b'a');
    assert_eq!(writer.char_at(BUFFER_HEIGHT - 3, 1).ascii_character, b'b');
    assert_eq!(writer.char_at(BUFFER_HEIGHT - 3, 2).ascii_character, b'c');
    assert_eq!(writer.char_at(BUFFER_HEIGHT - 2, 0).ascii_character, b'd');
    assert_eq!(writer.char_at(BUFFER_HEIGHT - 2, 1).ascii_character, b'e');
    assert_eq!(writer.char_at(BUFFER_HEIGHT - 2, 2).ascii_character, b'f');
    // The new bottom row is blank and carries the writer's attribute.
    for i in 0..BUFFER_WIDTH {
        let cell = writer.char_at(BUFFER_HEIGHT - 1, i);
        assert_eq!(cell.ascii_character, BLANK_BYTE);
        assert_eq!(cell.color_code, yellow_on_black());
    }
}

#[test]
fn writing_nothing_changes_nothing() {
    let mut writer = Writer::new(yellow_on_black());
    writer.write_string("xy");
    let col_before = writer.column_position();
    let mut cells_before = Vec::new();
    for r in 0..BUFFER_HEIGHT {
        for c in 0..BUFFER_WIDTH {
            cells_before.push(writer.char_at(r, c));
        }
    }
    writer.write_string("");
    assert_eq!(writer.column_position(), col_before);
    let mut k = 0;
    for r in 0..BUFFER_HEIGHT {
        for c in 0..BUFFER_WIDTH {
            assert_eq!(writer.char_at(r, c), cells_before[k]);
            k += 1;
        }
    }
}

#[test]
fn hello_lands_in_the_first_five_columns() {
    let mut writer = Writer::new(ColorCode::new(Color::Yellow, Color::Black));
    writer.write_string("Hello");
    let expected = [b'H', b'e', b'l', b'l', b'o'];
    for (i, &b) in expected.iter().enumerate() {
        let cell = writer.char_at(BUFFER_HEIGHT - 1, i);
        assert_eq!(cell.ascii_character, b);
        assert_eq!(cell.color_code, ColorCode::new(Color::Yellow, Color::Black));
    }
    assert_eq!(writer.column_position(), 5);
}

#[test]
fn wrap_places_the_next_char_at_column_zero_of_the_new_row() {
    let mut writer = Writer::new(yellow_on_black());
    // Fill the bottom row completely, so the cursor has reached the width.
    for _ in 0..BUFFER_WIDTH {
        writer.write_byte(b'.');
    }
    assert_eq!(writer.column_position(), BUFFER_WIDTH);
    writer.write_byte(b'X');
    // The 'X' lands at column 0 of the post-scroll bottom row, not at the
    // last column of the old row.
    assert_eq!(writer.char_at(BUFFER_HEIGHT - 1, 0).ascii_character, b'X');
    assert_eq!(writer.column_position(), 1);
    assert_eq!(writer.char_at(BUFFER_HEIGHT - 2, BUFFER_WIDTH - 1).ascii_character, b'.');
}

#[test]
fn multibyte_utf8_becomes_one_placeholder_per_byte() {
    let mut writer = Writer::new(yellow_on_black());
    writer.write_string("Wörld!");
    let expected = [
        b'W',
        PLACEHOLDER_BYTE,
        PLACEHOLDER_BYTE,
        b'r',
        b'l',
        b'd',
        b'!',
    ];
    for (i, &b) in expected.iter().enumerate() {
        assert_eq!(writer.char_at(BUFFER_HEIGHT - 1, i).ascii_character, b);
    }
    assert_eq!(writer.column_position(), expected.len());
}

#[test]
fn newline_renders_no_cell() {
    let mut writer = Writer::new(yellow_on_black());
    writer.write_string("\n");
    assert_eq!(writer.column_position(), 0);
    for i in 0..BUFFER_WIDTH {
        assert_eq!(writer.char_at(BUFFER_HEIGHT - 1, i).ascii_character, BLANK_BYTE);
    }
}

#[test]
fn oldest_lines_scroll_off_the_top() {
    let mut writer = Writer::new(yellow_on_black());
    // One more labeled line than the grid has rows: the first two labels
    // are pushed off the top (the last transition leaves the bottom blank).
    let count = BUFFER_HEIGHT + 1;
    for i in 0..count {
        writer.write_byte(b'A' + i as u8);
        writer.write_byte(b'\n');
    }
    for i in 2..count {
        let row = i - 2;
        assert_eq!(writer.char_at(row, 0).ascii_character, b'A' + i as u8);
    }
    for c in 0..BUFFER_WIDTH {
        assert_eq!(writer.char_at(BUFFER_HEIGHT - 1, c).ascii_character, BLANK_BYTE);
    }
}

#[test]
fn fresh_writer_is_blank_at_column_zero() {
    let attr = ColorCode::new(Color::LightGreen, Color::DarkGray);
    let writer = Writer::new(attr);
    assert_eq!(writer.column_position(), 0);
    assert_eq!(writer.color_code(), attr);
    for r in 0..BUFFER_HEIGHT {
        for c in 0..BUFFER_WIDTH {
            let cell = writer.char_at(r, c);
            assert_eq!(cell.ascii_character, BLANK_BYTE);
            assert_eq!(cell.color_code, attr);
        }
    }
}
