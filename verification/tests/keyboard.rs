use rikos::io::keyboard;
use rikos::io::vga::{AsciiWrite, Color, Writer, BUFFER_HEIGHT, DEFAULT_BG, DEFAULT_FG};
use rikos::os::keyboard::{self as keys, key_from_input, Key, KeyDecoder, KeyInput, RawKey};
use rikos::os::{char_utf8, echo_key, handle_key_input, handle_keypress, print_char, welcome};
use rikos::task::keyboard::{add_scancode, getch, ScancodeQueue, SCANCODE_QUEUE_CAPACITY};

const BOTTOM: usize = BUFFER_HEIGHT - 1;

fn ch_at(w: &Writer, x: usize, y: usize) -> u8 {
    w.get_cell(x, y).unwrap().ch
}

#[test]
fn scancodes_come_out_in_order() {
    let mut q = ScancodeQueue::new();
    assert_eq!(getch(&mut q), None);
    add_scancode(&mut q, 0x1e);
    add_scancode(&mut q, 0x9e);
    add_scancode(&mut q, 0x30);
    assert_eq!(getch(&mut q), Some(0x1e));
    assert_eq!(keyboard::getch(&mut q), Some(0x9e));
    assert_eq!(getch(&mut q), Some(0x30));
    assert_eq!(getch(&mut q), None);
}

#[test]
fn full_queue_drops_new_scancodes() {
    let mut q = ScancodeQueue::new();
    for i in 0..(SCANCODE_QUEUE_CAPACITY + 5) {
        let kept = add_scancode(&mut q, (i % 256) as u8);
        assert_eq!(kept, i < SCANCODE_QUEUE_CAPACITY);
    }
    for i in 0..SCANCODE_QUEUE_CAPACITY {
        assert_eq!(getch(&mut q), Some(i as u8));
    }
    assert_eq!(getch(&mut q), None);
    add_scancode(&mut q, 7);
    assert_eq!(q.pop(), Some(7));
}

#[test]
fn key_mapping() {
    assert_eq!(key_from_input(KeyInput::Unicode('a')), Some(Key::Char('a')));
    assert_eq!(key_from_input(KeyInput::Unicode('\x08')), Some(Key::Backspace));
    assert_eq!(key_from_input(KeyInput::Unicode('\n')), Some(Key::Char('\n')));
    assert_eq!(key_from_input(KeyInput::Raw(RawKey::Backspace)), Some(Key::Backspace));
    assert_eq!(key_from_input(KeyInput::Raw(RawKey::Home)), Some(Key::Home));
    assert_eq!(key_from_input(KeyInput::Raw(RawKey::End)), Some(Key::End));
    assert_eq!(key_from_input(KeyInput::Raw(RawKey::Return)), Some(Key::Enter));
    assert_eq!(key_from_input(KeyInput::Raw(RawKey::NumpadEnter)), Some(Key::Enter));
    assert_eq!(key_from_input(KeyInput::Raw(RawKey::ArrowUp)), Some(Key::Up));
    assert_eq!(key_from_input(KeyInput::Raw(RawKey::ArrowDown)), Some(Key::Down));
    assert_eq!(key_from_input(KeyInput::Raw(RawKey::ArrowLeft)), Some(Key::Left));
    assert_eq!(key_from_input(KeyInput::Raw(RawKey::ArrowRight)), Some(Key::Right));
    assert_eq!(key_from_input(KeyInput::Raw(RawKey::Other)), None);
}

#[test]
fn utf8_of_characters_matches_std() {
    for c in ['a', '\0', '\x7f', '\u{80}', 'é', '\u{7ff}', '\u{800}', '€', '\u{ffff}', '\u{10000}', '😀', '\u{10ffff}'] {
        let mut buf = [0u8; 4];
        assert_eq!(char_utf8(c), c.encode_utf8(&mut buf).as_bytes().to_vec());
    }
    assert_eq!(char_utf8('é'), vec![0xc3, 0xa9]);
}

#[test]
fn printing_a_character_writes_its_utf8_bytes() {
    let mut w = Writer::new();
    print_char(&mut w, 'é');
    assert_eq!(ch_at(&w, 0, BOTTOM), 0xc3);
    assert_eq!(ch_at(&w, 1, BOTTOM), 0xa9);
}

#[test]
fn key_presses_edit_the_line() {
    let mut w = Writer::new();
    for c in "abc".chars() {
        handle_key_input(&mut w, KeyInput::Unicode(c));
    }
    handle_key_input(&mut w, KeyInput::Unicode('\x08'));
    assert_eq!(ch_at(&w, 2, BOTTOM), 0);
    handle_key_input(&mut w, KeyInput::Raw(RawKey::ArrowLeft));
    handle_key_input(&mut w, KeyInput::Unicode('X'));
    assert_eq!(ch_at(&w, 1, BOTTOM), b'X');
    handle_key_input(&mut w, KeyInput::Raw(RawKey::Home));
    handle_key_input(&mut w, KeyInput::Raw(RawKey::ArrowRight));
    handle_key_input(&mut w, KeyInput::Unicode('Y'));
    assert_eq!(ch_at(&w, 1, BOTTOM), b'Y');
    handle_key_input(&mut w, KeyInput::Raw(RawKey::End));
    handle_key_input(&mut w, KeyInput::Unicode('Z'));
    assert_eq!(ch_at(&w, 2, BOTTOM), b'Z');
    handle_key_input(&mut w, KeyInput::Raw(RawKey::Backspace));
    assert_eq!(ch_at(&w, 2, BOTTOM), 0);
    handle_key_input(&mut w, KeyInput::Raw(RawKey::ArrowUp));
    handle_key_input(&mut w, KeyInput::Raw(RawKey::Other));
    handle_key_input(&mut w, KeyInput::Raw(RawKey::Return));
    assert_eq!(ch_at(&w, 0, BOTTOM - 1), b'a');
    assert_eq!(ch_at(&w, 1, BOTTOM - 1), b'Y');
    assert_eq!(ch_at(&w, 0, BOTTOM), 0);
    handle_key_input(&mut w, KeyInput::Unicode('q'));
    handle_key_input(&mut w, KeyInput::Raw(RawKey::NumpadEnter));
    assert_eq!(ch_at(&w, 0, BOTTOM - 1), b'q');
}

#[test]
fn echo_prints_only_characters() {
    let mut w = Writer::new();
    echo_key(&mut w, Key::Char('k'));
    echo_key(&mut w, Key::Enter);
    echo_key(&mut w, Key::Backspace);
    echo_key(&mut w, Key::Char('m'));
    assert_eq!(ch_at(&w, 0, BOTTOM), b'k');
    assert_eq!(ch_at(&w, 1, BOTTOM), b'm');
    assert_eq!(ch_at(&w, 2, BOTTOM), 0);
}

#[test]
fn welcome_without_hint() {
    let mut w = Writer::new();
    w.write_string("old text");
    welcome(&mut w, false);
    let row = BOTTOM - 1;
    assert_eq!(ch_at(&w, 0, row), 0);
    let text: Vec<u8> = (4..21).map(|x| ch_at(&w, x, row)).collect();
    assert_eq!(text, b" welcome to rikOS".to_vec());
    assert_eq!(w.get_cell(5, row).unwrap().fg, Color::LightBlue);
    assert_eq!(w.get_cell(16, row).unwrap().fg, Color::LightRed);
    assert_eq!(ch_at(&w, 0, BOTTOM - 2), 0);
    // The blank line left by the final newline was drawn in light red.
    assert_eq!(w.get_cell(0, BOTTOM).unwrap().fg, Color::LightRed);
    // Colors are back to the defaults for what follows.
    w.write_byte(b'$');
    let c = w.get_cell(0, BOTTOM).unwrap();
    assert_eq!((c.ch, c.fg, c.bg), (b'$', DEFAULT_FG, DEFAULT_BG));
}

#[test]
fn welcome_with_hint() {
    let mut w = Writer::new();
    welcome(&mut w, true);
    let hint_row = BOTTOM - 3;
    let hint: Vec<u8> = (0..41).map(|x| ch_at(&w, x, hint_row)).collect();
    assert_eq!(hint, b"use ctrl-alt-g to release mouse from qemu".to_vec());
    assert_eq!(w.get_cell(0, hint_row).unwrap().fg, Color::Brown);
    assert_eq!(ch_at(&w, 0, BOTTOM - 2), 0);
    assert_eq!(ch_at(&w, 5, BOTTOM - 1), b'w');
}

#[test]
fn decoder_turns_scancodes_into_keys() {
    let mut d = KeyDecoder::new();
    // 'A' pressed, then released.
    assert_eq!(d.decode(0x1e), Some(KeyInput::Unicode('a')));
    assert_eq!(d.decode(0x9e), None);
    // Backspace and Return decode to their characters.
    assert_eq!(d.decode(0x0e), Some(KeyInput::Unicode('\x08')));
    assert_eq!(d.decode(0x1c), Some(KeyInput::Unicode('\n')));
    // An extended scancode: the prefix alone completes nothing.
    assert_eq!(d.decode(0xe0), None);
    assert_eq!(d.decode(0x48), Some(KeyInput::Raw(RawKey::ArrowUp)));
    assert_eq!(d.decode(0xe0), None);
    assert_eq!(d.decode(0x47), Some(KeyInput::Raw(RawKey::Home)));
    // A key code the shell does not tell apart.
    assert_eq!(d.decode(0x3b), Some(KeyInput::Raw(RawKey::Other)));
}

#[test]
fn getch_decodes_queued_scancodes() {
    let mut q = ScancodeQueue::new();
    let mut d = KeyDecoder::new();
    assert_eq!(keys::getch(&mut q, &mut d), None);
    for code in [0x1e, 0x9e, 0x0e, 0x1c, 0xe0, 0x48, 0xe0, 0x4f, 0x3b] {
        add_scancode(&mut q, code);
    }
    assert_eq!(keys::getch(&mut q, &mut d), Some(Key::Char('a')));
    assert_eq!(keys::getch(&mut q, &mut d), None);
    assert_eq!(keys::getch(&mut q, &mut d), Some(Key::Backspace));
    assert_eq!(keys::getch(&mut q, &mut d), Some(Key::Char('\n')));
    assert_eq!(keys::getch(&mut q, &mut d), None);
    assert_eq!(keys::getch(&mut q, &mut d), Some(Key::Up));
    assert_eq!(keys::getch(&mut q, &mut d), None);
    assert_eq!(keys::getch(&mut q, &mut d), Some(Key::End));
    // F1 is no key the shell reacts to.
    assert_eq!(keys::getch(&mut q, &mut d), None);
    assert_eq!(keys::getch(&mut q, &mut d), None);
}

#[test]
fn keypress_handler_edits_the_screen() {
    let mut d = KeyDecoder::new();
    let mut w = Writer::new();
    handle_keypress(&mut d, &mut w, 0x1e);
    handle_keypress(&mut d, &mut w, 0x9e);
    handle_keypress(&mut d, &mut w, 0x30);
    assert_eq!(ch_at(&w, 0, BOTTOM), b'a');
    assert_eq!(ch_at(&w, 1, BOTTOM), b'b');
    assert_eq!(w.column(), 2);
    // Backspace removes the last character.
    handle_keypress(&mut d, &mut w, 0x0e);
    assert_eq!(w.column(), 1);
    assert_eq!(ch_at(&w, 1, BOTTOM), 0);
    // Home moves to the start of the line; F1 changes nothing.
    handle_keypress(&mut d, &mut w, 0xe0);
    handle_keypress(&mut d, &mut w, 0x47);
    assert_eq!(w.column(), 0);
    handle_keypress(&mut d, &mut w, 0x3b);
    assert_eq!(w.column(), 0);
    assert_eq!(ch_at(&w, 0, BOTTOM), b'a');
}
