//! The keys the shell reacts to, how a decoded key press maps to one, and the
//! decoding of keyboard scancodes with the `pc_keyboard` state machine.
use crate::task::keyboard::ScancodeQueue;
use pc_keyboard::{layouts, DecodedKey, HandleControl, KeyCode, Keyboard, ScancodeSet1};
use vstd::prelude::*;

verus! {

/// A key the shell reacts to.
#[derive(Debug, Clone, Copy, PartialEq, Eq, Structural)]
pub enum Key {
    Up,
    Down,
    Left,
    Right,
    Home,
    End,
    Enter,
    Backspace,
    Char(char),
}

/// The non-character keys that the shell tells apart; every other key is `Other`.
#[derive(Debug, Clone, Copy, PartialEq, Eq, Structural)]
pub enum RawKey {
    Backspace,
    Home,
    End,
    Return,
    NumpadEnter,
    ArrowUp,
    ArrowDown,
    ArrowLeft,
    ArrowRight,
    Other,
}

/// A decoded key press: a character, or a key without one.
#[derive(Debug, Clone, Copy, PartialEq, Eq, Structural)]
pub enum KeyInput {
    Unicode(char),
    Raw(RawKey),
}

/// The key the shell sees for a decoded key press: a backspace character or
/// key is `Backspace`, any other character is `Char`, the return keys are
/// `Enter`, the arrows and `Home`/`End` are themselves, and other keys are none.
pub open spec fn key_for(input: KeyInput) -> Option<Key> {
    match input {
        KeyInput::Unicode(c) => if c == '\x08' {
            Some(Key::Backspace)
        } else {
            Some(Key::Char(c))
        },
        KeyInput::Raw(raw) => match raw {
            RawKey::Backspace => Some(Key::Backspace),
            RawKey::Home => Some(Key::Home),
            RawKey::End => Some(Key::End),
            RawKey::Return => Some(Key::Enter),
            RawKey::NumpadEnter => Some(Key::Enter),
            RawKey::ArrowUp => Some(Key::Up),
            RawKey::ArrowDown => Some(Key::Down),
            RawKey::ArrowLeft => Some(Key::Left),
            RawKey::ArrowRight => Some(Key::Right),
            RawKey::Other => None,
        },
    }
}

/// A decoded character is never dropped or changed: the backspace character is
/// the backspace key and every other character is that character's key.
pub proof fn lemma_decoded_characters_are_kept(c: char)
    ensures
        c != '\x08' ==> key_for(KeyInput::Unicode(c)) == Some(Key::Char(c)),
        c == '\x08' ==> key_for(KeyInput::Unicode(c)) == Some(Key::Backspace),
{
}

/// Which key each key without a character is: the backspace key, Home, End,
/// the four arrows are themselves, both return keys are Enter; only the keys
/// the shell does not tell apart give no key.
pub proof fn lemma_raw_keys_map_to_keys()
    ensures
        key_for(KeyInput::Raw(RawKey::Backspace)) == Some(Key::Backspace),
        key_for(KeyInput::Raw(RawKey::Home)) == Some(Key::Home),
        key_for(KeyInput::Raw(RawKey::End)) == Some(Key::End),
        key_for(KeyInput::Raw(RawKey::Return)) == Some(Key::Enter),
        key_for(KeyInput::Raw(RawKey::NumpadEnter)) == Some(Key::Enter),
        key_for(KeyInput::Raw(RawKey::ArrowUp)) == Some(Key::Up),
        key_for(KeyInput::Raw(RawKey::ArrowDown)) == Some(Key::Down),
        key_for(KeyInput::Raw(RawKey::ArrowLeft)) == Some(Key::Left),
        key_for(KeyInput::Raw(RawKey::ArrowRight)) == Some(Key::Right),
        forall|i: KeyInput| #[trigger] key_for(i) is None <==> i == KeyInput::Raw(RawKey::Other),
{
}

/// The key for a decoded key press.
pub fn key_from_input(input: KeyInput) -> (r: Option<Key>)
    ensures
        r == key_for(input),
{
    match input {
        KeyInput::Unicode(c) => {
            if c == '\x08' {
                Some(Key::Backspace)
            } else {
                Some(Key::Char(c))
            }
        },
        KeyInput::Raw(raw) => match raw {
            RawKey::Backspace => Some(Key::Backspace),
            RawKey::Home => Some(Key::Home),
            RawKey::End => Some(Key::End),
            RawKey::Return => Some(Key::Enter),
            RawKey::NumpadEnter => Some(Key::Enter),
            RawKey::ArrowUp => Some(Key::Up),
            RawKey::ArrowDown => Some(Key::Down),
            RawKey::ArrowLeft => Some(Key::Left),
            RawKey::ArrowRight => Some(Key::Right),
            RawKey::Other => None,
        },
    }
}

/// The `pc_keyboard` decoder for scancode set 1 and the US 104-key layout.
/// Its state (the scancode prefix seen so far, the modifier keys held) is set
/// only by the scancodes fed to it since it was made.
#[verifier::external_body]
pub struct KeyDecoder {
    kbd: Keyboard<layouts::Us104Key, ScancodeSet1>,
}

/// The scancodes fed to a decoder since it was made, oldest first.
pub uninterp spec fn decoder_fed(decoder: KeyDecoder) -> Seq<u8>;

/// The key press that a fresh decoder yields for the last of these scancodes,
/// after all of them were fed in order: `add_byte` on the last one, then
/// `process_keyevent` on the key event it completes, if any, converted.
pub uninterp spec fn decoded_input(fed: Seq<u8>) -> Option<KeyInput>;

/// `Keyboard::new` with scancode set 1, the US 104-key layout and control
/// combinations left as they are: no scancode fed yet.
#[verifier::external_body]
fn key_decoder_new() -> (r: KeyDecoder)
    ensures
        decoder_fed(r) == Seq::<u8>::empty(),
{
    KeyDecoder {
        kbd: Keyboard::new(ScancodeSet1::new(), layouts::Us104Key, HandleControl::Ignore),
    }
}

/// `Keyboard::add_byte` on one scancode, then `Keyboard::process_keyevent` on
/// the key event it completes; a decoding error or no event gives `None`. The
/// decoded key is converted one for one: a character stays that character, a
/// key code becomes the raw key of the same name, or `Other`. Both calls are
/// deterministic, so the result is named by the scancodes fed so far.
#[verifier::external_body]
fn decoder_feed(decoder: &mut KeyDecoder, byte: u8) -> (r: Option<KeyInput>)
    ensures
        decoder_fed(*final(decoder)) == decoder_fed(*old(decoder)).push(byte),
        r == decoded_input(decoder_fed(*final(decoder))),
{
    let ev = match decoder.kbd.add_byte(byte) { Ok(Some(ev)) => ev, _ => return None };
    Some(match decoder.kbd.process_keyevent(ev)? {
        DecodedKey::Unicode(c) => KeyInput::Unicode(c),
        DecodedKey::RawKey(code) => KeyInput::Raw(match code {
            KeyCode::Backspace => RawKey::Backspace, KeyCode::Home => RawKey::Home,
            KeyCode::End => RawKey::End, KeyCode::Return => RawKey::Return,
            KeyCode::NumpadEnter => RawKey::NumpadEnter, KeyCode::ArrowUp => RawKey::ArrowUp,
            KeyCode::ArrowDown => RawKey::ArrowDown, KeyCode::ArrowLeft => RawKey::ArrowLeft,
            KeyCode::ArrowRight => RawKey::ArrowRight, _ => RawKey::Other,
        }),
    })
}

impl KeyDecoder {
    /// A fresh decoder: scancode set 1, US 104-key layout, control combinations
    /// passed through.
    pub fn new() -> (r: Self)
        ensures
            decoder_fed(r) == Seq::<u8>::empty(),
    {
        key_decoder_new()
    }

    /// Feeds one scancode to the decoder; the key press it completes, if any.
    /// A scancode that the decoder rejects completes none.
    pub fn decode(&mut self, scancode: u8) -> (r: Option<KeyInput>)
        ensures
            decoder_fed(*final(self)) == decoder_fed(*old(self)).push(scancode),
            r == decoded_input(decoder_fed(*final(self))),
    {
        decoder_feed(self, scancode)
    }
}

/// The key for what the decoder yields, if it yields a key press.
pub open spec fn key_for_decoded(input: Option<KeyInput>) -> Option<Key> {
    match input {
        Some(i) => key_for(i),
        None => None,
    }
}

/// Takes the oldest queued scancode and feeds it to the decoder; the key for
/// the key press it completes, if any. An empty queue leaves the queue and the
/// decoder as they are and gives no key.
pub fn getch(queue: &mut ScancodeQueue, decoder: &mut KeyDecoder) -> (r: Option<Key>)
    ensures
        old(queue)@.len() == 0 ==> r is None && final(queue)@ == old(queue)@ && *final(decoder)
            == *old(decoder),
        old(queue)@.len() > 0 ==> final(queue)@ == old(queue)@.drop_first() && decoder_fed(
            *final(decoder),
        ) == decoder_fed(*old(decoder)).push(old(queue)@[0]) && r == key_for_decoded(
            decoded_input(decoder_fed(*final(decoder))),
        ),
{
    let scancode = match crate::io::keyboard::getch(queue) {
        Some(c) => c,
        None => {
            return None;
        },
    };
    match decoder.decode(scancode) {
        Some(input) => key_from_input(input),
        None => None,
    }
}

} // verus!
