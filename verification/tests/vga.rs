use rikos::io::vga::{
    backspace, clear, end, enter, home, left, reset, right, set_bg, set_blink, set_fg, AsciiWrite,
    Color, VgaChar, Writer, BUFFER_HEIGHT, BUFFER_WIDTH, DEFAULT_BG, DEFAULT_FG,
};

const BOTTOM: usize = BUFFER_HEIGHT - 1;

fn ch_at(w: &Writer, x: usize, y: usize) -> u8 {
    w.get_cell(x, y).unwrap().ch
}

fn bottom_text(w: &Writer, len: usize) -> Vec<u8> {
    (0..len).map(|x| ch_at(w, x, BOTTOM)).collect()
}

#[test]
fn color_numbers_round_trip() {
    for n in 0u8..16 {
        assert_eq!(Color::from_number(n).number(), n);
    }
    assert_eq!(Color::from(0x1au8), Color::LightGreen);
    assert_eq!(Color::from(0xffu8), Color::White);
    assert_eq!(Color::Black.number(), 0);
    assert_eq!(Color::Pink.number(), 13);
}

#[test]
fn char_word_encoding() {
    let c = VgaChar { ch: b'A', fg: Color::LightGreen, bg: Color::Black, blink: false };
    assert_eq!(u16::from(c), 0x0a41);
    let d = VgaChar { ch: b'z', fg: Color::White, bg: Color::Blue, blink: true };
    assert_eq!(d.to_word(), 0x7a | (15 << 8) | (1 << 12) | (1 << 15));
    assert_eq!(VgaChar::from_word(0x0a41), c);
    assert_eq!(VgaChar::from(0x0a41u16), c);
}

#[test]
fn word_round_trip_for_every_word() {
    for w in 0u16..=u16::MAX {
        assert_eq!(VgaChar::from_word(w).to_word(), w);
    }
}

#[test]
fn blink_shares_bit_with_bright_background() {
    // A blinking character on a dark background reads back with a bright one.
    let c = VgaChar { ch: 1, fg: Color::Black, bg: Color::Blue, blink: true };
    let back = VgaChar::from_word(c.to_word());
    assert_eq!(back.bg, Color::LightBlue);
    assert!(back.blink);
    // A bright background reads back as blinking.
    let d = VgaChar { ch: 1, fg: Color::Black, bg: Color::White, blink: false };
    assert!(VgaChar::from_word(d.to_word()).blink);
    // Agreement between the two round-trips.
    let e = VgaChar { ch: 7, fg: Color::Red, bg: Color::Yellow, blink: true };
    assert_eq!(VgaChar::from_word(e.to_word()), e);
}

#[test]
fn char_conversions() {
    assert_eq!(VgaChar::from('a').ch, b'a');
    assert_eq!(VgaChar::from('é').ch, 0x13);
    assert_eq!(VgaChar::from(b'q'), VgaChar { ch: b'q', fg: DEFAULT_FG, bg: DEFAULT_BG, blink: false });
}

#[test]
fn new_writer_is_blank() {
    let w = Writer::new();
    for y in 0..BUFFER_HEIGHT {
        for x in 0..BUFFER_WIDTH {
            assert_eq!(w.get_cell(x, y).unwrap().to_word(), 0x0a00);
        }
    }
    assert!(w.get_cell(BUFFER_WIDTH, 0).is_none());
    assert!(w.get_cell(0, BUFFER_HEIGHT).is_none());
}

#[test]
fn write_string_puts_text_on_bottom_row() {
    let mut w = Writer::new();
    w.write_string("hi");
    assert_eq!(bottom_text(&w, 3), vec![b'h', b'i', 0]);
    let c = w.get_cell(0, BOTTOM).unwrap();
    assert_eq!(c.fg, DEFAULT_FG);
    assert_eq!(c.bg, DEFAULT_BG);
    assert!(!c.blink);
}

#[test]
fn newline_scrolls_up() {
    let mut w = Writer::new();
    w.write_string("ab\ncd");
    assert_eq!(bottom_text(&w, 2), vec![b'c', b'd']);
    assert_eq!(ch_at(&w, 0, BOTTOM - 1), b'a');
    assert_eq!(ch_at(&w, 1, BOTTOM - 1), b'b');
}

#[test]
fn tab_moves_four_columns() {
    let mut w = Writer::new();
    w.write_string("\tx");
    assert_eq!(bottom_text(&w, 5), vec![0, 0, 0, 0, b'x']);
}

#[test]
fn tab_near_line_end_stops_at_end() {
    let mut w = Writer::new();
    let line: String = std::iter::repeat('a').take(78).collect();
    w.write_string(&line);
    w.write_byte(b'\t');
    // Cursor is now at column 80: the next byte wraps onto a fresh line.
    w.write_byte(b'z');
    assert_eq!(ch_at(&w, 0, BOTTOM), b'z');
    assert_eq!(ch_at(&w, 77, BOTTOM - 1), b'a');
}

#[test]
fn long_line_wraps() {
    let mut w = Writer::new();
    let line: String = std::iter::repeat('x').take(81).collect();
    w.write_string(&line);
    assert_eq!(ch_at(&w, 79, BOTTOM - 1), b'x');
    assert_eq!(ch_at(&w, 0, BOTTOM), b'x');
    assert_eq!(ch_at(&w, 1, BOTTOM), 0);
}

#[test]
fn write_char_substitutes_non_ascii() {
    let mut w = Writer::new();
    w.write_char('A');
    w.write_char('\u{141}');
    w.write_char('\x7f');
    assert_eq!(bottom_text(&w, 3), vec![b'A', 0x13, 0x7f]);
}

#[test]
fn flush_keeps_every_row_and_blanks_bottom() {
    let mut w = Writer::new();
    w.write_string("top\nmiddle");
    set_bg(&mut w, Color::Red);
    w.flush();
    assert_eq!(ch_at(&w, 0, BOTTOM - 2), b't');
    assert_eq!(ch_at(&w, 0, BOTTOM - 1), b'm');
    let blank = w.get_cell(0, BOTTOM).unwrap();
    assert_eq!(blank.ch, 0);
    assert_eq!(blank.bg, Color::Red);
}

#[test]
fn colors_apply_to_later_characters() {
    let mut w = Writer::new();
    w.write_byte(b'a');
    set_fg(&mut w, Color::Yellow);
    set_bg(&mut w, Color::Blue);
    w.write_byte(b'b');
    let a = w.get_cell(0, BOTTOM).unwrap();
    let b = w.get_cell(1, BOTTOM).unwrap();
    assert_eq!(a.fg, DEFAULT_FG);
    assert_eq!(b.fg, Color::Yellow);
    assert_eq!(b.bg, Color::Blue);
    reset(&mut w);
    w.write_byte(b'c');
    assert_eq!(w.get_cell(2, BOTTOM).unwrap().fg, DEFAULT_FG);
    assert_eq!(w.get_cell(2, BOTTOM).unwrap().bg, DEFAULT_BG);
}

#[test]
fn blink_affects_future_characters() {
    let mut w = Writer::new();
    w.write_byte(b'a');
    set_blink(&mut w, true);
    w.write_byte(b'b');
    // What was printed before keeps its attributes; what follows blinks.
    assert!(!w.get_cell(0, BOTTOM).unwrap().blink);
    assert!(w.get_cell(1, BOTTOM).unwrap().blink);
    assert_eq!(w.get_cell(1, BOTTOM).unwrap().ch, b'b');
    enter(&mut w);
    assert!(w.get_cell(0, BOTTOM).unwrap().blink);
    set_blink(&mut w, false);
    w.write_byte(b'c');
    assert!(!w.get_cell(0, BOTTOM).unwrap().blink);
}

#[test]
fn left_right_home() {
    let mut w = Writer::new();
    w.write_string("abc");
    left(&mut w);
    left(&mut w);
    w.write_byte(b'X');
    assert_eq!(bottom_text(&w, 3), vec![b'a', b'X', b'c']);
    right(&mut w);
    w.write_byte(b'Y');
    assert_eq!(bottom_text(&w, 4), vec![b'a', b'X', b'c', b'Y']);
    // Right does not move over an empty cell.
    right(&mut w);
    w.write_byte(b'Z');
    assert_eq!(bottom_text(&w, 6), vec![b'a', b'X', b'c', b'Y', b'Z', 0]);
    home(&mut w);
    w.write_byte(b'H');
    assert_eq!(ch_at(&w, 0, BOTTOM), b'H');
    home(&mut w);
    left(&mut w);
    w.write_byte(b'L');
    assert_eq!(ch_at(&w, 0, BOTTOM), b'L');
}

#[test]
fn end_goes_after_last_printed_character() {
    let mut w = Writer::new();
    w.write_string("ab\tcd");
    home(&mut w);
    end(&mut w);
    w.write_byte(b'!');
    assert_eq!(bottom_text(&w, 9), vec![b'a', b'b', 0, 0, 0, 0, b'c', b'd', b'!']);
}

#[test]
fn end_on_empty_line_stays() {
    let mut w = Writer::new();
    w.write_string("\t");
    end(&mut w);
    w.write_byte(b'q');
    assert_eq!(ch_at(&w, 4, BOTTOM), b'q');
}

#[test]
fn backspace_deletes_left_and_stays_on_line() {
    let mut w = Writer::new();
    w.write_string("abc");
    backspace(&mut w);
    assert_eq!(bottom_text(&w, 3), vec![b'a', b'b', 0]);
    backspace(&mut w);
    backspace(&mut w);
    backspace(&mut w);
    assert_eq!(bottom_text(&w, 3), vec![0, 0, 0]);
    w.write_byte(b'z');
    assert_eq!(ch_at(&w, 0, BOTTOM), b'z');
}

#[test]
fn clear_blanks_everything() {
    let mut w = Writer::new();
    w.write_string("one\ntwo\nthree");
    set_bg(&mut w, Color::Green);
    clear(&mut w);
    for y in 0..BUFFER_HEIGHT {
        for x in 0..BUFFER_WIDTH {
            let c = w.get_cell(x, y).unwrap();
            assert_eq!(c.ch, 0);
            assert_eq!(c.bg, Color::Green);
        }
    }
    w.write_byte(b'k');
    assert_eq!(ch_at(&w, 0, BOTTOM), b'k');
}

#[test]
fn set_cell_outside_screen_is_ignored() {
    let mut w = Writer::new();
    let c = VgaChar { ch: b'o', fg: Color::Red, bg: Color::Black, blink: false };
    w.set_cell(BUFFER_WIDTH, 0, c);
    w.set_cell(0, BUFFER_HEIGHT, c);
    w.set_cell(3, 2, c);
    assert_eq!(w.get_cell(3, 2).unwrap(), c);
    assert_eq!(w.get_cell(0, 0).unwrap().ch, 0);
}

#[test]
fn clear_row_blanks_one_row() {
    let mut w = Writer::new();
    w.write_string("a\nb");
    w.clear_row(BOTTOM);
    assert_eq!(ch_at(&w, 0, BOTTOM), 0);
    assert_eq!(ch_at(&w, 0, BOTTOM - 1), b'a');
    w.clear_row(BUFFER_HEIGHT);
    assert_eq!(ch_at(&w, 0, BOTTOM - 1), b'a');
}

fn all_words(w: &Writer) -> Vec<u16> {
    let mut out = Vec::new();
    for y in 0..BUFFER_HEIGHT {
        for x in 0..BUFFER_WIDTH {
            out.push(w.get_cell(x, y).unwrap().to_word());
        }
    }
    out
}

#[test]
fn printing_in_pieces_matches_printing_at_once() {
    let mut a = Writer::new();
    a.write_string("hello, ");
    a.write_string("wor\tld\nand more");
    let mut b = Writer::new();
    b.write_string("hello, wor\tld\nand more");
    assert_eq!(all_words(&a), all_words(&b));
    a.write_byte(b'!');
    b.write_byte(b'!');
    assert_eq!(all_words(&a), all_words(&b));
}

#[test]
fn right_undoes_left_over_printed_text() {
    let mut w = Writer::new();
    w.write_string("ab");
    left(&mut w);
    right(&mut w);
    w.write_byte(b'c');
    assert_eq!(bottom_text(&w, 3), vec![b'a', b'b', b'c']);
}
