use blog_os::{
    BUFFER_HEIGHT, BUFFER_WIDTH, Buffer, Colour, ColourCode, QemuExitCode, ScreenChar, Writer,
};
use core::fmt::Write;
use volatile::Volatile;

const ALL_COLOURS: [Colour; 16] = [
    Colour::Black,
    Colour::Blue,
    Colour::Green,
    Colour::Cyan,
    Colour::Red,
    Colour::Magenta,
    Colour::Brown,
    Colour::LightGray,
    Colour::DarkGray,
    Colour::LightBlue,
    Colour::LightGreen,
    Colour::LightCyan,
    Colour::LightRed,
    Colour::Pink,
    Colour::Yellow,
    Colour::White,
];

fn filled_buffer(f: impl Fn(usize, usize) -> [u8; 2]) -> Box<Buffer> {
    Box::new(core::array::from_fn(|r| core::array::from_fn(|c| Volatile::new(f(r, c)))))
}

fn blank_buffer() -> Box<Buffer> {
    filled_buffer(|_, _| [b' ', 0x0f])
}

fn white_on_black() -> ColourCode {
    ColourCode::new(Colour::White, Colour::Black)
}

fn cell(ch: u8, colour: ColourCode) -> ScreenChar {
    ScreenChar { ascii_character: ch, colour_code: colour }
}

#[test]
fn colour_code_packs_background_high_foreground_low() {
    assert_eq!(white_on_black().value(), 0x0f);
    assert_eq!(ColourCode::new(Colour::Yellow, Colour::Blue).value(), 0x1e);
    assert_eq!(ColourCode::new(Colour::Black, Colour::White).value(), 0xf0);
    assert_eq!(ColourCode::new(Colour::LightGreen, Colour::Red).value(), 0x4a);
}

#[test]
fn colour_code_round_trip_for_all_pairs() {
    for (i, fg) in ALL_COLOURS.iter().enumerate() {
        for (j, bg) in ALL_COLOURS.iter().enumerate() {
            let byte = ColourCode::new(*fg, *bg).value();
            assert_eq!(byte & 0x0f, fg.code());
            assert_eq!((byte >> 4) & 0x0f, bg.code());
            assert_eq!(fg.code() as usize, i);
            assert_eq!(bg.code() as usize, j);
        }
    }
}

#[test]
fn printable_byte_goes_to_last_row_and_advances_column() {
    for b in 0x20u8..=0x7e {
        let mut buffer = blank_buffer();
        let colour = ColourCode::new(Colour::Cyan, Colour::Blue);
        let mut writer = Writer::new(colour, &mut buffer);
        writer.write_byte(b);
        assert_eq!(writer.read_char(BUFFER_HEIGHT - 1, 0), cell(b, colour));
        assert_eq!(writer.column_position(), 1);
        writer.write_byte(b);
        assert_eq!(writer.read_char(BUFFER_HEIGHT - 1, 1), cell(b, colour));
        assert_eq!(writer.column_position(), 2);
    }
}

#[test]
fn unprintable_bytes_become_placeholder() {
    for b in 0u8..=0xff {
        if (0x20..=0x7e).contains(&b) || b == b'\n' {
            continue;
        }
        let mut buffer = blank_buffer();
        let mut writer = Writer::new(white_on_black(), &mut buffer);
        writer.write_byte(b);
        let stored = writer.read_char(BUFFER_HEIGHT - 1, 0);
        assert_eq!(stored.ascii_character, 0xfe);
        assert_eq!(writer.column_position(), 1);
    }
}

#[test]
fn unprintable_bytes_in_string_become_placeholder() {
    let mut buffer = blank_buffer();
    let mut writer = Writer::new(white_on_black(), &mut buffer);
    writer.write_string("a\u{e9}\tb");
    let row = BUFFER_HEIGHT - 1;
    assert_eq!(writer.read_char(row, 0).ascii_character, b'a');
    assert_eq!(writer.read_char(row, 1).ascii_character, 0xfe);
    assert_eq!(writer.read_char(row, 2).ascii_character, 0xfe);
    assert_eq!(writer.read_char(row, 3).ascii_character, 0xfe);
    assert_eq!(writer.read_char(row, 4).ascii_character, b'b');
    assert_eq!(writer.column_position(), 5);
}

#[test]
fn empty_string_changes_nothing() {
    let mut buffer = filled_buffer(|r, c| [(r * 3 + c) as u8, (r + c) as u8]);
    let colour = ColourCode::new(Colour::Red, Colour::Green);
    let mut writer = Writer::new(colour, &mut buffer);
    writer.write_string("ab");
    let before: Vec<ScreenChar> = (0..BUFFER_HEIGHT)
        .flat_map(|r| (0..BUFFER_WIDTH).map(move |c| (r, c)))
        .map(|(r, c)| writer.read_char(r, c))
        .collect();
    writer.write_string("");
    let after: Vec<ScreenChar> = (0..BUFFER_HEIGHT)
        .flat_map(|r| (0..BUFFER_WIDTH).map(move |c| (r, c)))
        .map(|(r, c)| writer.read_char(r, c))
        .collect();
    assert_eq!(before, after);
    assert_eq!(writer.column_position(), 2);
    assert_eq!(writer.colour_code(), colour);
}

#[test]
fn new_line_moves_rows_up_and_blanks_last_row() {
    let mut buffer = filled_buffer(|r, c| [(r + 0x20) as u8, c as u8]);
    let colour = ColourCode::new(Colour::Yellow, Colour::Magenta);
    let mut writer = Writer::new(colour, &mut buffer);
    writer.write_string("xyz");
    writer.new_line();
    for r in 1..BUFFER_HEIGHT - 1 {
        for c in 0..BUFFER_WIDTH {
            let moved = writer.read_char(r - 1, c);
            assert_eq!(moved.ascii_character, (r + 0x20) as u8);
            assert_eq!(moved.colour_code.value(), c as u8);
        }
    }
    let row = BUFFER_HEIGHT - 2;
    assert_eq!(writer.read_char(row, 0), cell(b'x', colour));
    assert_eq!(writer.read_char(row, 1), cell(b'y', colour));
    assert_eq!(writer.read_char(row, 2), cell(b'z', colour));
    assert_eq!(writer.read_char(row, 3).ascii_character, (BUFFER_HEIGHT - 1 + 0x20) as u8);
    for c in 0..BUFFER_WIDTH {
        assert_eq!(writer.read_char(BUFFER_HEIGHT - 1, c), cell(b' ', colour));
    }
    assert_eq!(writer.column_position(), 0);
}

#[test]
fn newline_byte_scrolls() {
    let mut buffer = blank_buffer();
    let colour = white_on_black();
    let mut writer = Writer::new(colour, &mut buffer);
    writer.write_string("one\ntwo");
    assert_eq!(writer.read_char(BUFFER_HEIGHT - 2, 0), cell(b'o', colour));
    assert_eq!(writer.read_char(BUFFER_HEIGHT - 2, 2), cell(b'e', colour));
    assert_eq!(writer.read_char(BUFFER_HEIGHT - 1, 0), cell(b't', colour));
    assert_eq!(writer.read_char(BUFFER_HEIGHT - 1, 2), cell(b'o', colour));
    assert_eq!(writer.read_char(BUFFER_HEIGHT - 1, 3), cell(b' ', colour));
    assert_eq!(writer.column_position(), 3);
}

#[test]
fn full_row_scrolls_once_before_next_character() {
    let mut buffer = filled_buffer(|r, _| [(b'a' + r as u8), 0x07]);
    let colour = ColourCode::new(Colour::LightGreen, Colour::Black);
    let mut writer = Writer::new(colour, &mut buffer);
    let line: Vec<u8> = (0..BUFFER_WIDTH).map(|c| b'0' + (c % 10) as u8).collect();
    for b in &line {
        writer.write_byte(*b);
    }
    assert_eq!(writer.column_position(), BUFFER_WIDTH);
    // no scroll yet: the row above the last is untouched
    assert_eq!(writer.read_char(BUFFER_HEIGHT - 2, 0).ascii_character, b'a' + 23);
    for c in 0..BUFFER_WIDTH {
        assert_eq!(writer.read_char(BUFFER_HEIGHT - 1, c), cell(line[c], colour));
    }
    writer.write_byte(b'#');
    // exactly one scroll: the old second-to-last row is now third-to-last
    assert_eq!(writer.read_char(BUFFER_HEIGHT - 3, 0).ascii_character, b'a' + 23);
    assert_eq!(writer.read_char(0, 0).ascii_character, b'a' + 1);
    for c in 0..BUFFER_WIDTH {
        assert_eq!(writer.read_char(BUFFER_HEIGHT - 2, c), cell(line[c], colour));
    }
    assert_eq!(writer.read_char(BUFFER_HEIGHT - 1, 0), cell(b'#', colour));
    for c in 1..BUFFER_WIDTH {
        assert_eq!(writer.read_char(BUFFER_HEIGHT - 1, c), cell(b' ', colour));
    }
    assert_eq!(writer.column_position(), 1);
}

#[test]
fn fresh_writer_hi() {
    let mut buffer = blank_buffer();
    let colour = white_on_black();
    let mut writer = Writer::new(colour, &mut buffer);
    writer.write_string("Hi");
    assert_eq!(writer.read_char(24, 0), cell(b'H', colour));
    assert_eq!(writer.read_char(24, 1), cell(b'i', colour));
    assert_eq!(writer.read_char(24, 0).colour_code.value(), 0x0f);
    assert_eq!(writer.column_position(), 2);
    for r in 0..24 {
        for c in 0..BUFFER_WIDTH {
            assert_eq!(writer.read_char(r, c), cell(b' ', colour));
        }
    }
}

#[test]
fn eighty_one_a_wraps_to_blank_row() {
    let mut buffer = blank_buffer();
    let colour = ColourCode::new(Colour::Pink, Colour::DarkGray);
    let mut writer = Writer::new(colour, &mut buffer);
    let text: String = core::iter::repeat('A').take(81).collect();
    writer.write_string(&text);
    assert_eq!(writer.read_char(24, 0), cell(b'A', colour));
    for c in 1..80 {
        assert_eq!(writer.read_char(24, c), cell(b' ', colour));
    }
    for c in 0..80 {
        assert_eq!(writer.read_char(23, c), cell(b'A', colour));
    }
    assert_eq!(writer.read_char(22, 0).ascii_character, b' ');
    assert_eq!(writer.column_position(), 1);
}

#[test]
fn formatted_output_goes_through_write_string() {
    let mut buffer = blank_buffer();
    let colour = white_on_black();
    let mut writer = Writer::new(colour, &mut buffer);
    writer.write_byte(b'H');
    writer.write_string("ello ");
    let text = format!("The numbers are {} and {}", 42, 7);
    let result = writer.write_str(&text);
    assert!(result.is_ok());
    let expected = b"Hello The numbers are 42 and 7";
    for (c, b) in expected.iter().enumerate() {
        assert_eq!(writer.read_char(24, c), cell(*b, colour));
    }
    assert_eq!(writer.column_position(), expected.len());
}

#[test]
fn exit_codes() {
    assert_eq!(QemuExitCode::Success.value(), 0x10);
    assert_eq!(QemuExitCode::Failed.value(), 0x11);
}

#[test]
fn short_write_from_mid_row_does_not_scroll() {
    let mut buffer = filled_buffer(|r, c| [(b'a' + (r % 26) as u8), c as u8]);
    let colour = ColourCode::new(Colour::Brown, Colour::LightGray);
    let mut writer = Writer::new(colour, &mut buffer);
    writer.write_string("12345");
    writer.write_string("abc");
    writer.view_wf();
    let row = BUFFER_HEIGHT - 1;
    assert_eq!(writer.read_char(row, 4), cell(b'5', colour));
    assert_eq!(writer.read_char(row, 5), cell(b'a', colour));
    assert_eq!(writer.read_char(row, 7), cell(b'c', colour));
    assert_eq!(writer.read_char(row, 8).ascii_character, b'a' + 24);
    assert_eq!(writer.read_char(row, 8).colour_code.value(), 8);
    assert_eq!(writer.read_char(0, 0).ascii_character, b'a');
    assert_eq!(writer.column_position(), 8);
}

#[test]
fn formatted_empty_fragment_succeeds_and_changes_nothing() {
    let mut buffer = blank_buffer();
    let mut writer = Writer::new(white_on_black(), &mut buffer);
    writer.write_string("ab");
    assert!(writer.write_str("").is_ok());
    assert_eq!(writer.column_position(), 2);
    assert_eq!(writer.read_char(24, 2).ascii_character, b' ');
}
