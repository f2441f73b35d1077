//! The small shell that runs on top of the kernel: its greeting, how it echoes
//! keys, and how key presses edit the bottom line of the screen.
pub mod keyboard;

use crate::io::vga::{
    after_byte, after_bytes, backspace, backspaced, cleared, end, enter, home, left, moved_end,
    moved_home, moved_left, moved_right, reset, right, scrolled, set_fg, str_bytes, AsciiWrite,
    Color, ScreenState, Writer, DEFAULT_BG, DEFAULT_FG,
};
use crate::os::keyboard::{decoded_input, decoder_fed, key_for, Key, KeyDecoder, KeyInput, RawKey};
use vstd::prelude::*;
use vstd::utf8::{
    encode_scalar, last_continuation_byte, leading_byte_width_1, leading_byte_width_2, leading_byte_width_3,
    leading_byte_width_4, second_last_continuation_byte, third_last_continuation_byte,
};

verus! {

/// The UTF-8 bytes of a character.
pub open spec fn utf8_of(c: char) -> Seq<u8> {
    encode_scalar(c as u32)
}

/// The UTF-8 encoding of a character, as `format!("{c}")` produces it.
pub fn char_utf8(c: char) -> (r: Vec<u8>)
    ensures
        r@ == utf8_of(c),
{
    let v = c as u32;
    let mut out: Vec<u8> = Vec::new();
    if v <= 0x7f {
        let b0 = (v & 0x7f) as u8;
        assert(b0 == leading_byte_width_1(v));
        out.push(b0);
    } else if v <= 0x7ff {
        let b0 = 0xc0u8 | ((v >> 6u32) & 0x1f) as u8;
        let b1 = 0x80u8 | (v & 0x3f) as u8;
        assert(b0 == leading_byte_width_2(v) && b1 == last_continuation_byte(v));
        out.push(b0);
        out.push(b1);
    } else if v <= 0xffff {
        let b0 = 0xe0u8 | ((v >> 12u32) & 0x0f) as u8;
        let b1 = 0x80u8 | ((v >> 6u32) & 0x3f) as u8;
        let b2 = 0x80u8 | (v & 0x3f) as u8;
        assert(b0 == leading_byte_width_3(v) && b1 == second_last_continuation_byte(v) && b2
            == last_continuation_byte(v));
        out.push(b0);
        out.push(b1);
        out.push(b2);
    } else {
        let b0 = 0xf0u8 | ((v >> 18u32) & 0x7) as u8;
        let b1 = 0x80u8 | ((v >> 12u32) & 0x3f) as u8;
        let b2 = 0x80u8 | ((v >> 6u32) & 0x3f) as u8;
        let b3 = 0x80u8 | (v & 0x3f) as u8;
        assert(b0 == leading_byte_width_4(v) && b1 == third_last_continuation_byte(v) && b2
            == second_last_continuation_byte(v) && b3 == last_continuation_byte(v));
        out.push(b0);
        out.push(b1);
        out.push(b2);
        out.push(b3);
    }
    assert(out@ =~= utf8_of(c));
    out
}

/// Prints one character as `print!("{c}")` does: its UTF-8 bytes, in order.
pub fn print_char(writer: &mut Writer, c: char)
    ensures
        final(writer)@ == after_bytes(old(writer)@, utf8_of(c)),
{
    let bytes = char_utf8(c);
    writer.write_bytes(bytes.as_slice());
}

/// The screen after a decoded key press edits the bottom line: a backspace
/// character or key deletes left of the cursor, any other character is
/// printed, `Home`/`End`/the left and right arrows move the cursor, the return
/// keys start a new line, and other keys change nothing.
pub open spec fn key_effect(s: ScreenState, input: KeyInput) -> ScreenState {
    match input {
        KeyInput::Unicode(c) => if c == '\x08' {
            backspaced(s)
        } else {
            after_bytes(s, utf8_of(c))
        },
        KeyInput::Raw(raw) => match raw {
            RawKey::Backspace => backspaced(s),
            RawKey::Home => moved_home(s),
            RawKey::End => moved_end(s),
            RawKey::Return => scrolled(s),
            RawKey::NumpadEnter => scrolled(s),
            RawKey::ArrowLeft => moved_left(s),
            RawKey::ArrowRight => moved_right(s),
            _ => s,
        },
    }
}

/// Applies a decoded key press to the screen.
pub fn handle_key_input(writer: &mut Writer, input: KeyInput)
    ensures
        final(writer)@ == key_effect(old(writer)@, input),
{
    match input {
        KeyInput::Unicode(c) => {
            if c == '\x08' {
                backspace(writer);
            } else {
                print_char(writer, c);
            }
        },
        KeyInput::Raw(raw) => match raw {
            RawKey::Backspace => backspace(writer),
            RawKey::Home => home(writer),
            RawKey::End => end(writer),
            RawKey::Return => enter(writer),
            RawKey::NumpadEnter => enter(writer),
            RawKey::ArrowLeft => left(writer),
            RawKey::ArrowRight => right(writer),
            _ => {},
        },
    }
}

/// The screen after a key press that the decoder may or may not yield: its
/// effect, or no change.
pub open spec fn decoded_effect(s: ScreenState, input: Option<KeyInput>) -> ScreenState {
    match input {
        Some(i) => key_effect(s, i),
        None => s,
    }
}

/// The shell's key handler: feeds a scancode to the decoder and applies the key
/// press it completes, if any, to the screen.
pub fn handle_keypress(decoder: &mut KeyDecoder, writer: &mut Writer, scancode: u8)
    ensures
        decoder_fed(*final(decoder)) == decoder_fed(*old(decoder)).push(scancode),
        final(writer)@ == decoded_effect(old(writer)@, decoded_input(decoder_fed(*final(decoder)))),
{
    if let Some(input) = decoder.decode(scancode) {
        handle_key_input(writer, input);
    }
}

/// The screen after the shell echoes a key: a character key prints its
/// character, every other key changes nothing.
pub open spec fn echo_effect(s: ScreenState, key: Key) -> ScreenState {
    match key {
        Key::Char(c) => after_bytes(s, utf8_of(c)),
        _ => s,
    }
}

/// Echoes a key: prints it when it is a character.
pub fn echo_key(writer: &mut Writer, key: Key)
    ensures
        final(writer)@ == echo_effect(old(writer)@, key),
{
    if let Key::Char(ch) = key {
        print_char(writer, ch);
    }
}

/// The hint printed for debug builds, with the blank line after it.
pub const QEMU_HINT: &'static str = "use ctrl-alt-g to release mouse from qemu\n\n";

/// The greeting before the system's name.
pub const WELCOME_TEXT: &'static str = "\t welcome to ";

/// The system's name, ending its line.
pub const OS_NAME_LINE: &'static str = "rikOS\n";

/// The screen after the greeting: cleared; with `hint`, the QEMU hint in
/// brown; the greeting in light blue and the name in light red; then the
/// default colors and no blink.
pub open spec fn welcome_screen(s: ScreenState, hint: bool) -> ScreenState {
    let s1 = cleared(s);
    let s2 = if hint {
        after_bytes(ScreenState { fg: Color::Brown, ..s1 }, str_bytes(QEMU_HINT))
    } else {
        s1
    };
    let s3 = after_bytes(ScreenState { fg: Color::LightBlue, ..s2 }, str_bytes(WELCOME_TEXT));
    let s4 = after_bytes(ScreenState { fg: Color::LightRed, ..s3 }, str_bytes(OS_NAME_LINE));
    ScreenState { fg: DEFAULT_FG, bg: DEFAULT_BG, blink: false, ..s4 }
}

/// Clears the screen and greets the user; `hint` adds the note on releasing
/// the mouse from QEMU.
pub fn welcome(writer: &mut Writer, hint: bool)
    ensures
        final(writer)@ == welcome_screen(old(writer)@, hint),
{
    crate::io::vga::clear(writer);
    if hint {
        set_fg(writer, Color::Brown);
        writer.write_string(QEMU_HINT);
    }
    set_fg(writer, Color::LightBlue);
    writer.write_string(WELCOME_TEXT);
    set_fg(writer, Color::LightRed);
    writer.write_string(OS_NAME_LINE);
    reset(writer);
}

/// The bytes printed for a character are valid UTF-8 that decodes back to
/// exactly that character.
pub proof fn lemma_utf8_decodes_back(c: char)
    ensures
        vstd::utf8::valid_utf8(utf8_of(c)),
        vstd::utf8::decode_utf8(utf8_of(c)) == seq![c],
{
    let chars = seq![c];
    assert(chars.drop_first() =~= Seq::<char>::empty());
    assert(vstd::utf8::encode_utf8(chars.drop_first()) =~= Seq::<u8>::empty());
    assert(vstd::utf8::encode_utf8(chars) =~= utf8_of(c));
    vstd::utf8::encode_utf8_decode_utf8(chars);
    vstd::utf8::encode_utf8_valid_utf8(chars);
}

/// A character below 128 is written as the single byte of its code.
pub proof fn lemma_ascii_is_one_byte(c: char)
    requires
        (c as u32) < 128,
    ensures
        utf8_of(c) == seq![(c as u32) as u8],
{
    let v = c as u32;
    assert((v & 0x7f) == v) by (bit_vector)
        requires
            v < 128,
    ;
}

proof fn lemma_one_byte_written(s: ScreenState, b: u8)
    ensures
        after_bytes(s, seq![b]) == after_byte(s, b),
{
    assert(seq![b].drop_last() =~= Seq::<u8>::empty());
    assert(after_bytes(s, Seq::<u8>::empty()) == s);
}

/// A typed character other than backspace shows on the screen exactly as
/// printing it would: its UTF-8 bytes, written in order. A newline therefore
/// starts a new line, like the return keys.
pub proof fn lemma_typed_characters_are_printed(s: ScreenState, c: char)
    requires
        c != '\x08',
    ensures
        key_effect(s, KeyInput::Unicode(c)) == after_bytes(s, utf8_of(c)),
        c == '\n' ==> key_effect(s, KeyInput::Unicode(c)) == after_byte(s, 10),
        c == '\n' ==> key_effect(s, KeyInput::Unicode(c)) == key_effect(
            s,
            KeyInput::Raw(RawKey::Return),
        ),
{
    if c == '\n' {
        lemma_ascii_is_one_byte(c);
        lemma_one_byte_written(s, 10);
    }
}

/// What each key without a character does to the screen: the backspace key
/// deletes like the backspace character, Home and End move the cursor, both
/// return keys start a new line as a newline does, the left and right arrows
/// move the cursor, and the up and down arrows and the keys the shell does not
/// tell apart change nothing.
pub proof fn lemma_raw_key_effects(s: ScreenState)
    ensures
        key_effect(s, KeyInput::Raw(RawKey::Backspace)) == backspaced(s),
        key_effect(s, KeyInput::Raw(RawKey::Backspace)) == key_effect(s, KeyInput::Unicode('\x08')),
        key_effect(s, KeyInput::Raw(RawKey::Home)) == moved_home(s),
        key_effect(s, KeyInput::Raw(RawKey::End)) == moved_end(s),
        key_effect(s, KeyInput::Raw(RawKey::Return)) == after_byte(s, 10),
        key_effect(s, KeyInput::Raw(RawKey::NumpadEnter)) == after_byte(s, 10),
        key_effect(s, KeyInput::Raw(RawKey::ArrowLeft)) == moved_left(s),
        key_effect(s, KeyInput::Raw(RawKey::ArrowRight)) == moved_right(s),
        key_effect(s, KeyInput::Raw(RawKey::ArrowUp)) == s,
        key_effect(s, KeyInput::Raw(RawKey::ArrowDown)) == s,
        key_effect(s, KeyInput::Raw(RawKey::Other)) == s,
{
}

/// Echoing a character key shows the character exactly as printing it would,
/// a newline included; echoing any other key changes nothing. So echoing the
/// key that a typed character maps to shows the same as handling the typed
/// character.
pub proof fn lemma_echo_prints_characters(s: ScreenState, key: Key, c: char)
    ensures
        echo_effect(s, Key::Char(c)) == after_bytes(s, utf8_of(c)),
        c == '\n' ==> echo_effect(s, Key::Char(c)) == after_byte(s, 10),
        !(key is Char) ==> echo_effect(s, key) == s,
        c != '\x08' ==> echo_effect(s, key_for(KeyInput::Unicode(c))->Some_0) == key_effect(
            s,
            KeyInput::Unicode(c),
        ),
{
    if c == '\n' {
        lemma_ascii_is_one_byte(c);
        lemma_one_byte_written(s, 10);
    }
}

} // verus!
