//! The VGA text-mode screen: 25 rows of 80 cells, each cell a 16-bit word
//! holding an ASCII byte, a foreground and background colour and a blink bit.
//!
//! The writer keeps its own copy of the screen; whoever owns the hardware
//! buffer copies the cells out after each change.
use vstd::prelude::*;
use vstd::string::StringSliceAdditionalSpecFns;

verus! {

/// Number of text rows on the screen.
pub const BUFFER_HEIGHT: usize = 25;

/// Number of text columns on the screen.
pub const BUFFER_WIDTH: usize = 80;

/// Number of cells on the screen.
pub const BUFFER_CELLS: usize = 2000;

/// A VGA color.
#[derive(Debug, Clone, Copy, PartialEq, Eq, Structural)]
pub enum Color {
    Black,
    Blue,
    Green,
    Cyan,
    Red,
    Magenta,
    Brown,
    LightGray,
    DarkGray,
    LightBlue,
    LightGreen,
    LightCyan,
    LightRed,
    Pink,
    Yellow,
    White,
}

/// The default foreground color.
pub const DEFAULT_FG: Color = Color::LightGreen;

/// The default background color.
pub const DEFAULT_BG: Color = Color::Black;

/// The 4-bit hardware number of a color.
pub open spec fn color_number(c: Color) -> u8 {
    match c {
        Color::Black => 0,
        Color::Blue => 1,
        Color::Green => 2,
        Color::Cyan => 3,
        Color::Red => 4,
        Color::Magenta => 5,
        Color::Brown => 6,
        Color::LightGray => 7,
        Color::DarkGray => 8,
        Color::LightBlue => 9,
        Color::LightGreen => 10,
        Color::LightCyan => 11,
        Color::LightRed => 12,
        Color::Pink => 13,
        Color::Yellow => 14,
        Color::White => 15,
    }
}

/// The color whose hardware number is the low four bits of `value`.
pub open spec fn color_of(value: u8) -> Color {
    let n = value % 16;
    if n == 0 {
        Color::Black
    } else if n == 1 {
        Color::Blue
    } else if n == 2 {
        Color::Green
    } else if n == 3 {
        Color::Cyan
    } else if n == 4 {
        Color::Red
    } else if n == 5 {
        Color::Magenta
    } else if n == 6 {
        Color::Brown
    } else if n == 7 {
        Color::LightGray
    } else if n == 8 {
        Color::DarkGray
    } else if n == 9 {
        Color::LightBlue
    } else if n == 10 {
        Color::LightGreen
    } else if n == 11 {
        Color::LightCyan
    } else if n == 12 {
        Color::LightRed
    } else if n == 13 {
        Color::Pink
    } else if n == 14 {
        Color::Yellow
    } else {
        Color::White
    }
}

/// Every color has a number below 16, and that number leads back to it.
pub proof fn lemma_color_number_round_trip(c: Color)
    ensures
        color_number(c) < 16,
        color_of(color_number(c)) == c,
{
}

/// The color of a number is the one whose number agrees with it in the low four bits.
pub proof fn lemma_color_of_number(value: u8)
    ensures
        color_number(color_of(value)) == value % 16,
{
}

impl Color {
    /// The 4-bit hardware number of this color.
    pub fn number(self) -> (r: u8)
        ensures
            r == color_number(self),
    {
        match self {
            Color::Black => 0,
            Color::Blue => 1,
            Color::Green => 2,
            Color::Cyan => 3,
            Color::Red => 4,
            Color::Magenta => 5,
            Color::Brown => 6,
            Color::LightGray => 7,
            Color::DarkGray => 8,
            Color::LightBlue => 9,
            Color::LightGreen => 10,
            Color::LightCyan => 11,
            Color::LightRed => 12,
            Color::Pink => 13,
            Color::Yellow => 14,
            Color::White => 15,
        }
    }

    /// The color named by the low four bits of `value`.
    pub fn from_number(value: u8) -> (r: Color)
        ensures
            r == color_of(value),
    {
        let n = value & 0b1111;
        assert(n == value % 16) by (bit_vector)
            requires
                n == value & 0b1111,
        ;
        match n {
            0 => Color::Black,
            1 => Color::Blue,
            2 => Color::Green,
            3 => Color::Cyan,
            4 => Color::Red,
            5 => Color::Magenta,
            6 => Color::Brown,
            7 => Color::LightGray,
            8 => Color::DarkGray,
            9 => Color::LightBlue,
            10 => Color::LightGreen,
            11 => Color::LightCyan,
            12 => Color::LightRed,
            13 => Color::Pink,
            14 => Color::Yellow,
            _ => Color::White,
        }
    }
}

impl From<u8> for Color {
    fn from(value: u8) -> (r: Self) {
        Color::from_number(value)
    }
}

impl vstd::std_specs::convert::FromSpecImpl<u8> for Color {
    open spec fn obeys_from_spec() -> bool {
        true
    }

    open spec fn from_spec(v: u8) -> Self {
        color_of(v)
    }
}

/// A VGA character: an ASCII byte with its colors and blink bit.
#[derive(Debug, Clone, Copy, PartialEq, Eq, Structural)]
pub struct VgaChar {
    /// An ASCII character.
    pub ch: u8,
    /// The foreground color of this character.
    pub fg: Color,
    /// The background color of this character.
    pub bg: Color,
    /// Whether or not the text should blink.
    pub blink: bool,
}

/// The screen word of a character: the byte in bits 0..8, the foreground number
/// in bits 8..12, the background number shifted to bit 12 and the blink bit
/// shifted to bit 15, all combined with bitwise or (so a background number of 8
/// or more also sets bit 15).
pub open spec fn encode_char(c: VgaChar) -> u16 {
    (c.ch as u16) | ((color_number(c.fg) as u16) << 8u16) | ((color_number(c.bg) as u16) << 12u16)
        | ((if c.blink { 1u16 } else { 0u16 }) << 15u16)
}

/// The character read back from a screen word: the low byte, the foreground
/// from bits 8..12, the background from bits 12..16 and the blink flag from bit 15.
pub open spec fn decode_char(w: u16) -> VgaChar {
    VgaChar {
        ch: (w % 256) as u8,
        fg: color_of(((w / 256) % 16) as u8),
        bg: color_of(((w / 4096) % 16) as u8),
        blink: w >= 32768,
    }
}

/// The word of a blank cell drawn with the given attributes.
pub open spec fn blank_word(fg: Color, bg: Color, blink: bool) -> u16 {
    encode_char(VgaChar { ch: 0, fg, bg, blink })
}

proof fn lemma_word_bits(w: u16, a: u16, f: u16, b: u16, k: u16)
    requires
        a == w % 256,
        f == (w / 256) % 16,
        b == (w / 4096) % 16,
        k == (if w >= 32768 { 1u16 } else { 0u16 }),
    ensures
        a | (f << 8u16) | (b << 12u16) | (k << 15u16) == w,
{
    assert(a | (f << 8u16) | (b << 12u16) | (k << 15u16) == w) by (bit_vector)
        requires
            a == w % 256,
            f == (w / 256) % 16,
            b == (w / 4096) % 16,
            k == (if w >= 32768 { 1u16 } else { 0u16 }),
    ;
}

/// Reading a word back into a character and writing that character again gives
/// the same word, for every word.
pub proof fn lemma_decode_encode(w: u16)
    ensures
        encode_char(decode_char(w)) == w,
{
    let c = decode_char(w);
    lemma_color_of_number(((w / 256) % 16) as u8);
    lemma_color_of_number(((w / 4096) % 16) as u8);
    lemma_word_bits(
        w,
        c.ch as u16,
        color_number(c.fg) as u16,
        color_number(c.bg) as u16,
        if c.blink { 1u16 } else { 0u16 },
    );
}

proof fn lemma_encode_bits(ch: u16, f: u16, b: u16, k: u16, w: u16)
    requires
        ch < 256,
        f < 16,
        b < 16,
        k < 2,
        w == ch | (f << 8u16) | (b << 12u16) | (k << 15u16),
    ensures
        w % 256 == ch,
        (w / 256) % 16 == f,
        (w / 4096) % 16 == (if k == 1 { b | 8 } else { b }),
        (w >= 32768) == (k == 1 || b >= 8),
{
    assert(w % 256 == ch && (w / 256) % 16 == f && (w / 4096) % 16 == (if k == 1 { b | 8 } else {
        b
    }) && (w >= 32768) == (k == 1 || b >= 8)) by (bit_vector)
        requires
            ch < 256,
            f < 16,
            b < 16,
            k < 2,
            w == ch | (f << 8u16) | (b << 12u16) | (k << 15u16),
    ;
}

/// Writing a character and reading it back gives the same character exactly when
/// its blink bit agrees with the top bit of its background number, which shares
/// bit 15 of the word.
pub proof fn lemma_encode_decode(c: VgaChar)
    ensures
        decode_char(encode_char(c)) == c <==> (c.blink == (color_number(c.bg) >= 8)),
{
    let f = color_number(c.fg) as u16;
    let b = color_number(c.bg) as u16;
    let k: u16 = if c.blink { 1 } else { 0 };
    let w = encode_char(c);
    lemma_color_number_round_trip(c.fg);
    lemma_color_number_round_trip(c.bg);
    lemma_encode_bits(c.ch as u16, f, b, k, w);
    let d = decode_char(w);
    if c.blink && b < 8 {
        assert((b | 8) == b + 8) by (bit_vector)
            requires
                b < 8,
        ;
        assert(color_number(d.bg) == b + 8);
        assert(d.bg != c.bg);
    }
    if c.blink && b >= 8 {
        assert((b | 8) == b) by (bit_vector)
            requires
                8 <= b < 16,
        ;
    }
}

impl VgaChar {
    /// A character with the default colors and no blink.
    pub fn from_byte(ch: u8) -> (r: VgaChar)
        ensures
            r == (VgaChar { ch, fg: DEFAULT_FG, bg: DEFAULT_BG, blink: false }),
    {
        VgaChar { ch, fg: DEFAULT_FG, bg: DEFAULT_BG, blink: false }
    }

    /// A character with the default colors and no blink; a character outside
    /// ASCII becomes the substitute byte 0x13.
    pub fn from_char(ch: char) -> (r: VgaChar)
        ensures
            r == (VgaChar {
                ch: ascii_byte(ch),
                fg: DEFAULT_FG,
                bg: DEFAULT_BG,
                blink: false,
            }),
    {
        VgaChar { ch: ascii_or_substitute(ch), fg: DEFAULT_FG, bg: DEFAULT_BG, blink: false }
    }

    /// The screen word of this character.
    pub fn to_word(self) -> (r: u16)
        ensures
            r == encode_char(self),
    {
        let f = self.fg.number() as u16;
        let b = self.bg.number() as u16;
        let k: u16 = if self.blink {
            1
        } else {
            0
        };
        (self.ch as u16) | (f << 8u16) | (b << 12u16) | (k << 15u16)
    }

    /// The character stored in a screen word.
    pub fn from_word(word: u16) -> (r: VgaChar)
        ensures
            r == decode_char(word),
    {
        let ch = (word & 0xff) as u8;
        let f = ((word >> 8u16) as u8) & 0xf;
        let b = ((word >> 12u16) as u8) & 0xf;
        let blink = word & (1u16 << 15u16) != 0;
        assert(ch == word % 256 && f == (word / 256) % 16 && b == (word / 4096) % 16 && blink == (
        word >= 32768)) by (bit_vector)
            requires
                ch == (word & 0xff) as u8,
                f == ((word >> 8u16) as u8) & 0xf,
                b == ((word >> 12u16) as u8) & 0xf,
                blink == (word & (1u16 << 15u16) != 0),
        ;
        let fg = Color::from_number(f);
        let bg = Color::from_number(b);
        VgaChar { ch, fg, bg, blink }
    }
}

impl From<VgaChar> for u16 {
    fn from(ch: VgaChar) -> (r: Self) {
        ch.to_word()
    }
}

impl vstd::std_specs::convert::FromSpecImpl<VgaChar> for u16 {
    open spec fn obeys_from_spec() -> bool {
        true
    }

    open spec fn from_spec(v: VgaChar) -> Self {
        encode_char(v)
    }
}

impl From<u16> for VgaChar {
    fn from(word: u16) -> (r: Self) {
        VgaChar::from_word(word)
    }
}

impl vstd::std_specs::convert::FromSpecImpl<u16> for VgaChar {
    open spec fn obeys_from_spec() -> bool {
        true
    }

    open spec fn from_spec(v: u16) -> Self {
        decode_char(v)
    }
}

impl From<u8> for VgaChar {
    fn from(ch: u8) -> (r: Self) {
        VgaChar::from_byte(ch)
    }
}

impl vstd::std_specs::convert::FromSpecImpl<u8> for VgaChar {
    open spec fn obeys_from_spec() -> bool {
        true
    }

    open spec fn from_spec(v: u8) -> Self {
        VgaChar { ch: v, fg: DEFAULT_FG, bg: DEFAULT_BG, blink: false }
    }
}

impl From<char> for VgaChar {
    fn from(ch: char) -> (r: Self) {
        VgaChar::from_char(ch)
    }
}

impl vstd::std_specs::convert::FromSpecImpl<char> for VgaChar {
    open spec fn obeys_from_spec() -> bool {
        true
    }

    open spec fn from_spec(v: char) -> Self {
        VgaChar {
            ch: ascii_byte(v),
            fg: DEFAULT_FG,
            bg: DEFAULT_BG,
            blink: false,
        }
    }
}

/// What a writer holds: the cursor column on the bottom row, the attributes of
/// characters to come, and the screen cells, row by row.
pub struct ScreenState {
    pub column: nat,
    pub fg: Color,
    pub bg: Color,
    pub blink: bool,
    pub cells: Seq<u16>,
}

/// Index of the first cell of the bottom row.
pub open spec fn last_row_start() -> int {
    ((BUFFER_HEIGHT - 1) * BUFFER_WIDTH) as int
}

/// Index of the cell in column `x` of row `y`.
pub open spec fn cell_index(x: int, y: int) -> int {
    y * (BUFFER_WIDTH as int) + x
}

/// The screen after every row moves up by one: the top row is lost, the bottom
/// row is blank in the current attributes, and the cursor returns to column 0.
pub open spec fn scrolled(s: ScreenState) -> ScreenState {
    ScreenState {
        column: 0,
        cells: Seq::new(
            BUFFER_CELLS as nat,
            |i: int|
                if i < last_row_start() {
                    s.cells[i + BUFFER_WIDTH]
                } else {
                    blank_word(s.fg, s.bg, s.blink)
                },
        ),
        ..s
    }
}

/// The screen with row `row` blank in the current attributes (no change for a
/// row below the screen).
pub open spec fn row_cleared(s: ScreenState, row: int) -> ScreenState {
    ScreenState {
        cells: Seq::new(
            s.cells.len(),
            |i: int|
                if 0 <= row < BUFFER_HEIGHT && cell_index(0, row) <= i < cell_index(
                    BUFFER_WIDTH as int,
                    row,
                ) {
                    blank_word(s.fg, s.bg, s.blink)
                } else {
                    s.cells[i]
                },
        ),
        ..s
    }
}

/// The screen with every cell blank in the current attributes and the cursor
/// at column 0.
pub open spec fn cleared(s: ScreenState) -> ScreenState {
    ScreenState {
        column: 0,
        cells: Seq::new(BUFFER_CELLS as nat, |i: int| blank_word(s.fg, s.bg, s.blink)),
        ..s
    }
}

/// The screen of a new writer: default attributes, every cell blank, cursor at 0.
pub open spec fn initial_screen() -> ScreenState {
    ScreenState {
        column: 0,
        fg: DEFAULT_FG,
        bg: DEFAULT_BG,
        blink: false,
        cells: Seq::new(BUFFER_CELLS as nat, |i: int| blank_word(DEFAULT_FG, DEFAULT_BG, false)),
    }
}

/// The screen after one byte is written.
/// - A newline scrolls.
/// - A tab scrolls when the cursor is past the last column, else moves the
///   cursor right by up to four columns, never past column 80.
/// - Any other byte scrolls first when the cursor is past the last column, is
///   then stored at the cursor on the bottom row in the current colors and
///   blink setting, and the cursor moves right by one.
pub open spec fn after_byte(s: ScreenState, byte: u8) -> ScreenState {
    if byte == 10 {
        scrolled(s)
    } else if byte == 9 {
        if s.column >= BUFFER_WIDTH {
            scrolled(s)
        } else {
            ScreenState {
                column: s.column + (if BUFFER_WIDTH - s.column < 4 {
                    (BUFFER_WIDTH - s.column) as nat
                } else {
                    4nat
                }),
                ..s
            }
        }
    } else {
        let t = if s.column >= BUFFER_WIDTH {
            scrolled(s)
        } else {
            s
        };
        ScreenState {
            cells: t.cells.update(
                last_row_start() + t.column,
                encode_char(VgaChar { ch: byte, fg: t.fg, bg: t.bg, blink: t.blink }),
            ),
            column: t.column + 1,
            ..t
        }
    }
}

/// The screen after the bytes are written one by one, in order.
pub open spec fn after_bytes(s: ScreenState, bytes: Seq<u8>) -> ScreenState
    decreases bytes.len(),
{
    if bytes.len() == 0 {
        s
    } else {
        after_byte(after_bytes(s, bytes.drop_last()), bytes.last())
    }
}

/// The bytes that make up a string.
pub open spec fn str_bytes(s: &str) -> Seq<u8> {
    s.spec_bytes()
}

/// The VGA text screen and its cursor; the hardware buffer is filled from it.
pub struct Writer {
    column: usize,
    fg: Color,
    bg: Color,
    blink: bool,
    cells: [u16; 2000],
}

impl View for Writer {
    type V = ScreenState;

    closed spec fn view(&self) -> ScreenState {
        ScreenState {
            column: self.column as nat,
            fg: self.fg,
            bg: self.bg,
            blink: self.blink,
            cells: self.cells@,
        }
    }
}

impl Writer {
    #[verifier::type_invariant]
    spec fn screen_inv(&self) -> bool {
        self.column <= BUFFER_WIDTH
    }

    /// The cursor's column on the bottom row; it never passes column 80.
    pub fn column(&self) -> (r: usize)
        ensures
            r == self@.column,
            r <= BUFFER_WIDTH,
    {
        proof {
            use_type_invariant(self);
        }
        self.column
    }

    /// Creates a new writer with default colors over a blank screen.
    pub fn new() -> (r: Self)
        ensures
            r@ == initial_screen(),
    {
        let mut me = Writer {
            column: 0,
            fg: DEFAULT_FG,
            bg: DEFAULT_BG,
            blink: false,
            cells: [0u16; 2000],
        };
        me.clear();
        assert(me@.cells =~= initial_screen().cells);
        me
    }

    /// Blanks row `row` in the current attributes.
    pub fn clear_row(&mut self, row: usize)
        ensures
            final(self)@ == row_cleared(old(self)@, row as int),
    {
        proof {
            use_type_invariant(&*self);
        }
        let blank = VgaChar { ch: 0, fg: self.fg, bg: self.bg, blink: self.blink };
        let ghost start = self@;
        for col in 0..BUFFER_WIDTH
            invariant
                self@.fg == start.fg && self@.bg == start.bg && self@.blink == start.blink,
                self@.column == start.column,
                blank == (VgaChar { ch: 0, fg: start.fg, bg: start.bg, blink: start.blink }),
                self@.cells.len() == start.cells.len(),
                start.cells.len() == BUFFER_CELLS,
                forall|i: int|
                    0 <= i < self@.cells.len() ==> #[trigger] self@.cells[i] == if row
                        < BUFFER_HEIGHT && cell_index(0, row as int) <= i < cell_index(
                        col as int,
                        row as int,
                    ) {
                        blank_word(start.fg, start.bg, start.blink)
                    } else {
                        start.cells[i]
                    },
        {
            self.set_cell(col, row, blank);
        }
        assert(self@.cells =~= row_cleared(start, row as int).cells);
    }

    /// Blanks the whole screen in the current attributes and resets the cursor.
    pub fn clear(&mut self)
        ensures
            final(self)@ == cleared(old(self)@),
    {
        proof {
            use_type_invariant(&*self);
        }
        let ghost start = self@;
        for row in 0..BUFFER_HEIGHT
            invariant
                self@.fg == start.fg && self@.bg == start.bg && self@.blink == start.blink,
                self@.column == start.column,
                self@.cells.len() == BUFFER_CELLS,
                start.cells.len() == BUFFER_CELLS,
                forall|i: int|
                    0 <= i < BUFFER_CELLS ==> #[trigger] self@.cells[i] == if i < cell_index(
                        0,
                        row as int,
                    ) {
                        blank_word(start.fg, start.bg, start.blink)
                    } else {
                        start.cells[i]
                    },
        {
            self.clear_row(row);
        }
        self.column = 0;
        assert(self@.cells =~= cleared(start).cells);
    }

    /// The character in column `x` of row `y`, or `None` outside the screen.
    pub fn get_cell(&self, x: usize, y: usize) -> (r: Option<VgaChar>)
        ensures
            r == (if x < BUFFER_WIDTH && y < BUFFER_HEIGHT {
                Some(decode_char(self@.cells[cell_index(x as int, y as int)]))
            } else {
                None
            }),
    {
        proof {
            use_type_invariant(self);
        }
        if x >= BUFFER_WIDTH || y >= BUFFER_HEIGHT {
            return None;
        }
        let idx = y * BUFFER_WIDTH + x;
        Some(VgaChar::from_word(self.cells[idx]))
    }

    /// Stores a character in column `x` of row `y`; outside the screen nothing
    /// changes.
    pub fn set_cell(&mut self, x: usize, y: usize, ch: VgaChar)
        ensures
            final(self)@ == (if x < BUFFER_WIDTH && y < BUFFER_HEIGHT {
                ScreenState {
                    cells: old(self)@.cells.update(cell_index(x as int, y as int), encode_char(ch)),
                    ..old(self)@
                }
            } else {
                old(self)@
            }),
    {
        proof {
            use_type_invariant(&*self);
        }
        if x >= BUFFER_WIDTH || y >= BUFFER_HEIGHT {
            return;
        }
        let idx = y * BUFFER_WIDTH + x;
        let word = ch.to_word();
        self.cells[idx] = word;
    }
}

/// The byte written for a character: its code for an ASCII character, the
/// substitute 0x13 for any other.
pub open spec fn ascii_byte(ch: char) -> u8 {
    if (ch as u32) < 128 {
        (ch as u32) as u8
    } else {
        0x13u8
    }
}

/// The byte written for a character: its code for an ASCII character, the
/// substitute 0x13 for any other.
fn ascii_or_substitute(ch: char) -> (r: u8)
    ensures
        r == ascii_byte(ch),
{
    let code = ch as u32;
    if code < 128 {
        code as u8
    } else {
        0x13
    }
}

/// Something that text can be written to one ASCII byte at a time.
pub trait AsciiWrite: Sized {
    /// What the writer has produced so far, as far as its contracts speak of it.
    type Output;

    /// The output so far.
    spec fn output(&self) -> Self::Output;

    /// The output after one more byte is written.
    spec fn output_after_byte(out: Self::Output, byte: u8) -> Self::Output;

    /// The output after a flush.
    spec fn output_after_flush(out: Self::Output) -> Self::Output;

    /// The output after the bytes are written one by one, in order.
    spec fn output_after_bytes(out: Self::Output, bytes: Seq<u8>) -> Self::Output;

    /// Writing no bytes leaves the output as it is.
    proof fn lemma_output_after_no_bytes(out: Self::Output)
        ensures
            Self::output_after_bytes(out, Seq::empty()) == out,
    ;

    /// Writing bytes is writing all but the last, then the last.
    proof fn lemma_output_after_more_bytes(out: Self::Output, bytes: Seq<u8>)
        requires
            bytes.len() > 0,
        ensures
            Self::output_after_bytes(out, bytes) == Self::output_after_byte(
                Self::output_after_bytes(out, bytes.drop_last()),
                bytes.last(),
            ),
    ;

    /// Write a single ASCII byte.
    fn write_byte(&mut self, byte: u8)
        ensures
            final(self).output() == Self::output_after_byte(old(self).output(), byte),
    ;

    /// Flush the output.
    ///
    /// This may just mean adding a newline.
    fn flush(&mut self)
        ensures
            final(self).output() == Self::output_after_flush(old(self).output()),
    ;

    /// Write a single UTF-8 character, substituting a default (0x13) for
    /// non-ASCII characters.
    fn write_char(&mut self, ch: char)
        ensures
            final(self).output() == Self::output_after_byte(old(self).output(), ascii_byte(ch)),
    {
        self.write_byte(ascii_or_substitute(ch));
    }

    /// Write an ASCII string. Note: UTF-8 will be interpreted as malformed ASCII.
    fn write_string(&mut self, s: &str)
        ensures
            final(self).output() == Self::output_after_bytes(old(self).output(), str_bytes(s)),
    {
        let bytes = s.as_bytes();
        let ghost start = self.output();
        proof {
            Self::lemma_output_after_no_bytes(start);
            assert(bytes@.take(0) =~= Seq::<u8>::empty());
        }
        let mut i: usize = 0;
        while i < bytes.len()
            invariant
                i <= bytes@.len(),
                bytes@ == str_bytes(s),
                self.output() == Self::output_after_bytes(start, bytes@.take(i as int)),
            decreases bytes@.len() - i,
        {
            let ghost before = bytes@.take(i as int);
            self.write_byte(bytes[i]);
            proof {
                assert(bytes@.take(i + 1).drop_last() =~= before);
                Self::lemma_output_after_more_bytes(start, bytes@.take(i + 1));
            }
            i = i + 1;
        }
        assert(bytes@.take(i as int) =~= bytes@);
    }
}

impl AsciiWrite for Writer {
    type Output = ScreenState;

    open spec fn output(&self) -> ScreenState {
        self@
    }

    open spec fn output_after_byte(out: ScreenState, byte: u8) -> ScreenState {
        after_byte(out, byte)
    }

    open spec fn output_after_flush(out: ScreenState) -> ScreenState {
        scrolled(out)
    }

    open spec fn output_after_bytes(out: ScreenState, bytes: Seq<u8>) -> ScreenState {
        after_bytes(out, bytes)
    }

    proof fn lemma_output_after_no_bytes(out: ScreenState) {
    }

    proof fn lemma_output_after_more_bytes(out: ScreenState, bytes: Seq<u8>) {
    }

    fn write_byte(&mut self, byte: u8)
        ensures
            final(self)@ == after_byte(old(self)@, byte),
    {
        proof {
            use_type_invariant(&*self);
        }
        match byte {
            0x0a => self.flush(),
            0x09 => {
                if self.column >= BUFFER_WIDTH {
                    self.flush();
                } else {
                    let room = BUFFER_WIDTH - self.column;
                    let step: usize = if room < 4 {
                        room
                    } else {
                        4
                    };
                    self.column = self.column + step;
                }
            },
            byte => {
                if self.column >= BUFFER_WIDTH {
                    self.flush();
                }
                proof {
                    use_type_invariant(&*self);
                }
                let row = BUFFER_HEIGHT - 1;
                let ch = VgaChar { ch: byte, fg: self.fg, bg: self.bg, blink: self.blink };
                self.set_cell(self.column, row, ch);
                self.column = self.column + 1;
            },
        }
    }

    /// Write a single UTF-8 character, substituting a default (0x13) for
    /// non-ASCII characters.
    fn write_char(&mut self, ch: char)
        ensures
            final(self)@ == after_byte(old(self)@, ascii_byte(ch)),
    {
        self.write_byte(ascii_or_substitute(ch));
    }

    /// Write a string to VGA output, byte by byte.
    fn write_string(&mut self, s: &str)
        ensures
            final(self)@ == after_bytes(old(self)@, str_bytes(s)),
    {
        self.write_bytes(s.as_bytes());
    }

    fn flush(&mut self)
        ensures
            final(self)@ == scrolled(old(self)@),
    {
        proof {
            use_type_invariant(&*self);
        }
        let ghost start = self@;
        for row in 1..BUFFER_HEIGHT
            invariant
                self@.fg == start.fg && self@.bg == start.bg && self@.blink == start.blink,
                self@.column == start.column,
                self@.cells.len() == BUFFER_CELLS,
                start.cells.len() == BUFFER_CELLS,
                forall|i: int|
                    0 <= i < BUFFER_CELLS ==> #[trigger] self@.cells[i] == if i < cell_index(
                        0,
                        row - 1,
                    ) {
                        start.cells[i + BUFFER_WIDTH]
                    } else {
                        start.cells[i]
                    },
        {
            for col in 0..BUFFER_WIDTH
                invariant
                    1 <= row < BUFFER_HEIGHT,
                    self@.fg == start.fg && self@.bg == start.bg && self@.blink == start.blink,
                    self@.column == start.column,
                    self@.cells.len() == BUFFER_CELLS,
                    start.cells.len() == BUFFER_CELLS,
                    forall|i: int|
                        0 <= i < BUFFER_CELLS ==> #[trigger] self@.cells[i] == if i < cell_index(
                            col as int,
                            row - 1,
                        ) {
                            start.cells[i + BUFFER_WIDTH]
                        } else {
                            start.cells[i]
                        },
            {
                let ch = self.get_cell(col, row).unwrap();
                proof {
                    lemma_decode_encode(self@.cells[cell_index(col as int, row as int)]);
                }
                self.set_cell(col, row - 1, ch);
            }
        }
        self.clear_row(BUFFER_HEIGHT - 1);
        self.column = 0;
        assert(self@.cells =~= scrolled(start).cells);
    }
}

impl Writer {
    /// Writes the bytes one by one, in order.
    pub fn write_bytes(&mut self, bytes: &[u8])
        ensures
            final(self)@ == after_bytes(old(self)@, bytes@),
    {
        let ghost start = self@;
        let mut i: usize = 0;
        while i < bytes.len()
            invariant
                i <= bytes@.len(),
                self@ == after_bytes(start, bytes@.take(i as int)),
            decreases bytes@.len() - i,
        {
            let ghost before = bytes@.take(i as int);
            self.write_byte(bytes[i]);
            assert(bytes@.take(i + 1).drop_last() =~= before);
            i = i + 1;
        }
        assert(bytes@.take(i as int) =~= bytes@);
    }
}

/// Whether a screen word shows a character: its low byte is not zero.
pub open spec fn printed(word: u16) -> bool {
    word % 256 != 0
}

/// The word under the cursor's column `x` on the bottom row.
pub open spec fn bottom_cell(s: ScreenState, x: int) -> u16 {
    s.cells[last_row_start() + x]
}

/// The largest column below `k` on the bottom row that shows a character, or -1.
pub open spec fn last_printed_before(s: ScreenState, k: int) -> int
    decreases k,
{
    if k <= 0 {
        -1
    } else if printed(bottom_cell(s, k - 1)) {
        k - 1
    } else {
        last_printed_before(s, k - 1)
    }
}

proof fn lemma_last_printed_bounds(s: ScreenState, k: int)
    ensures
        -1 <= last_printed_before(s, k) < k || (k <= 0 && last_printed_before(s, k) == -1),
        last_printed_before(s, k) >= 0 ==> printed(bottom_cell(s, last_printed_before(s, k))),
        forall|j: int|
            last_printed_before(s, k) < j < k ==> !#[trigger] printed(bottom_cell(s, j)),
    decreases k,
{
    if k > 0 {
        lemma_last_printed_bounds(s, k - 1);
    }
}

/// The screen after the cursor moves right: only when it is not already past
/// the last column and the bottom-row cell under it shows a character.
pub open spec fn moved_right(s: ScreenState) -> ScreenState {
    if s.column != BUFFER_WIDTH && printed(bottom_cell(s, s.column as int)) {
        ScreenState { column: s.column + 1, ..s }
    } else {
        s
    }
}

/// The screen after the cursor moves left, unless it is at column 0.
pub open spec fn moved_left(s: ScreenState) -> ScreenState {
    if s.column != 0 {
        ScreenState { column: (s.column - 1) as nat, ..s }
    } else {
        s
    }
}

/// The screen with the cursor at the start of the line.
pub open spec fn moved_home(s: ScreenState) -> ScreenState {
    ScreenState { column: 0, ..s }
}

/// The screen with the cursor just past the last printed column of the bottom
/// row; unchanged when nothing is printed there.
pub open spec fn moved_end(s: ScreenState) -> ScreenState {
    if last_printed_before(s, BUFFER_WIDTH as int) >= 0 {
        ScreenState { column: (last_printed_before(s, BUFFER_WIDTH as int) + 1) as nat, ..s }
    } else {
        s
    }
}

/// The screen after the character left of the cursor is blanked in the current
/// attributes and the cursor moves onto it; unchanged at column 0.
pub open spec fn backspaced(s: ScreenState) -> ScreenState {
    if s.column != 0 {
        ScreenState {
            column: (s.column - 1) as nat,
            cells: s.cells.update(last_row_start() + s.column - 1, blank_word(s.fg, s.bg, s.blink)),
            ..s
        }
    } else {
        s
    }
}

fn bottom_printed(writer: &Writer, x: usize) -> (r: bool)
    requires
        x < BUFFER_WIDTH,
    ensures
        r == printed(bottom_cell(writer@, x as int)),
{
    let word: u16 = u16::from(writer.get_cell(x, BUFFER_HEIGHT - 1).unwrap());
    proof {
        lemma_decode_encode(writer@.cells[cell_index(x as int, (BUFFER_HEIGHT - 1) as int)]);
    }
    let low = word & 0xff;
    assert(low == word % 256) by (bit_vector)
        requires
            low == word & 0xff,
    ;
    low != 0
}

/// Moves the cursor one character to the right,
/// if not already at the end of a line.
pub fn right(writer: &mut Writer)
    ensures
        final(writer)@ == moved_right(old(writer)@),
{
    proof {
        use_type_invariant(&*writer);
    }
    if writer.column != BUFFER_WIDTH && bottom_printed(writer, writer.column) {
        writer.column = writer.column + 1;
    }
}

/// Moves the cursor one character to the left,
/// if not already at the start of a line.
pub fn left(writer: &mut Writer)
    ensures
        final(writer)@ == moved_left(old(writer)@),
{
    proof {
        use_type_invariant(&*writer);
    }
    if writer.column != 0 {
        writer.column = writer.column - 1;
    }
}

/// Returns the cursor to the start of the line.
pub fn home(writer: &mut Writer)
    ensures
        final(writer)@ == moved_home(old(writer)@),
{
    proof {
        use_type_invariant(&*writer);
    }
    writer.column = 0;
}

/// Puts the cursor after any printed characters on the line: just past the
/// last column of the bottom row that shows a character. On a bottom row with
/// nothing printed the cursor stays where it is.
pub fn end(writer: &mut Writer)
    ensures
        final(writer)@ == moved_end(old(writer)@),
{
    proof {
        use_type_invariant(&*writer);
    }
    let ghost s = writer@;
    let mut i: usize = BUFFER_WIDTH;
    while i > 0
        invariant
            i <= BUFFER_WIDTH,
            writer@ == s,
            s == old(writer)@,
            last_printed_before(s, BUFFER_WIDTH as int) == last_printed_before(s, i as int),
        decreases i,
    {
        i = i - 1;
        if bottom_printed(writer, i) {
            writer.column = i + 1;
            return;
        }
    }
}

/// Creates a new line.
pub fn enter(writer: &mut Writer)
    ensures
        final(writer)@ == scrolled(old(writer)@),
{
    writer.flush();
}

/// Deletes the last character. Doesn't cross lines.
pub fn backspace(writer: &mut Writer)
    ensures
        final(writer)@ == backspaced(old(writer)@),
{
    proof {
        use_type_invariant(&*writer);
    }
    if writer.column != 0 {
        let col = writer.column - 1;
        let fg = writer.fg;
        let bg = writer.bg;
        let blink = writer.blink;
        writer.set_cell(col, BUFFER_HEIGHT - 1, VgaChar { ch: 0, fg, bg, blink });
        writer.column = col;
    }
}

/// Clears the screen and resets the cursor.
pub fn clear(writer: &mut Writer)
    ensures
        final(writer)@ == cleared(old(writer)@),
{
    writer.clear();
}

/// Sets the VGA blink. Affects future characters.
pub fn set_blink(writer: &mut Writer, blink: bool)
    ensures
        final(writer)@ == (ScreenState { blink, ..old(writer)@ }),
{
    proof {
        use_type_invariant(&*writer);
    }
    writer.blink = blink;
}

/// Sets the foreground color. Affects future characters.
pub fn set_fg(writer: &mut Writer, fg: Color)
    ensures
        final(writer)@ == (ScreenState { fg, ..old(writer)@ }),
{
    proof {
        use_type_invariant(&*writer);
    }
    writer.fg = fg;
}

/// Sets the background color. Affects future characters.
pub fn set_bg(writer: &mut Writer, bg: Color)
    ensures
        final(writer)@ == (ScreenState { bg, ..old(writer)@ }),
{
    proof {
        use_type_invariant(&*writer);
    }
    writer.bg = bg;
}

/// Resets the foreground/background colors and blink.
pub fn reset(writer: &mut Writer)
    ensures
        final(writer)@ == (ScreenState {
            blink: false,
            fg: DEFAULT_FG,
            bg: DEFAULT_BG,
            ..old(writer)@
        }),
{
    proof {
        use_type_invariant(&*writer);
    }
    writer.blink = false;
    writer.fg = DEFAULT_FG;
    writer.bg = DEFAULT_BG;
}

/// Every writer's screen has 25 rows of 80 cells.
pub proof fn lemma_writer_has_all_cells(w: &Writer)
    ensures
        w@.cells.len() == BUFFER_CELLS,
{
}

/// Scrolling moves every cell up one row: the cell in column `x` of row `y`
/// shows, after the scroll, in row `y - 1`, and the bottom row is blank in the
/// current attributes.
pub proof fn lemma_scroll_moves_rows(s: ScreenState, x: int, y: int)
    requires
        s.cells.len() == BUFFER_CELLS,
        0 <= x < BUFFER_WIDTH,
        1 <= y < BUFFER_HEIGHT,
    ensures
        scrolled(s).cells[cell_index(x, y - 1)] == s.cells[cell_index(x, y)],
        scrolled(s).cells[cell_index(x, BUFFER_HEIGHT - 1)] == blank_word(s.fg, s.bg, s.blink),
        scrolled(s).column == 0,
{
}

/// The colors and blink set for the writer are those of the next character it
/// prints: a byte other than newline or tab lands on the bottom row (in column
/// 0 after a scroll) as that byte with those attributes. Read back, it shows
/// that byte in that foreground color; its background reads back unchanged
/// when it does not blink, and its blink bit is set when it blinks or its
/// background is one of the bright colors (the two share bit 15).
pub proof fn lemma_attributes_apply_to_next_char(
    s: ScreenState,
    fg: Color,
    bg: Color,
    blink: bool,
    byte: u8,
)
    requires
        s.cells.len() == BUFFER_CELLS,
        s.column <= BUFFER_WIDTH,
        byte != 10,
        byte != 9,
    ensures
        ({
            let t = after_byte(ScreenState { fg, bg, blink, ..s }, byte);
            let pos = if s.column >= BUFFER_WIDTH {
                last_row_start()
            } else {
                last_row_start() + s.column
            };
            &&& t.cells[pos] == encode_char(VgaChar { ch: byte, fg, bg, blink })
            &&& decode_char(t.cells[pos]).ch == byte
            &&& decode_char(t.cells[pos]).fg == fg
            &&& !blink ==> decode_char(t.cells[pos]).bg == bg
            &&& decode_char(t.cells[pos]).blink == (blink || color_number(bg) >= 8)
        }),
{
    let c = VgaChar { ch: byte, fg, bg, blink };
    let k: u16 = if blink { 1 } else { 0 };
    lemma_color_number_round_trip(fg);
    lemma_color_number_round_trip(bg);
    lemma_encode_bits(byte as u16, color_number(fg) as u16, color_number(bg) as u16, k, encode_char(c));
}

/// Setting a cell and reading it back gives the character the cell's word
/// encodes; that is the character itself exactly when its blink bit agrees
/// with the top bit of its background.
pub proof fn lemma_cell_reads_back(s: ScreenState, x: int, y: int, c: VgaChar)
    requires
        s.cells.len() == BUFFER_CELLS,
        0 <= x < BUFFER_WIDTH,
        0 <= y < BUFFER_HEIGHT,
    ensures
        decode_char(s.cells.update(cell_index(x, y), encode_char(c))[cell_index(x, y)]) == decode_char(
            encode_char(c),
        ),
        decode_char(s.cells.update(cell_index(x, y), encode_char(c))[cell_index(x, y)]) == c
            <==> (c.blink == (color_number(c.bg) >= 8)),
{
    assert(0 <= cell_index(x, y) < BUFFER_CELLS) by (nonlinear_arith)
        requires
            0 <= x < 80,
            0 <= y < 25,
            cell_index(x, y) == y * 80 + x,
    ;
    lemma_encode_decode(c);
}

/// Backspace undoes one printed byte: printing a byte other than newline or
/// tab over a blank cell left of column 80, then deleting it, restores the
/// screen and the cursor.
pub proof fn lemma_backspace_undoes_byte(s: ScreenState, byte: u8)
    requires
        s.cells.len() == BUFFER_CELLS,
        s.column < BUFFER_WIDTH,
        bottom_cell(s, s.column as int) == blank_word(s.fg, s.bg, s.blink),
        byte != 10,
        byte != 9,
    ensures
        backspaced(after_byte(s, byte)) == s,
{
    let t = after_byte(s, byte);
    assert(backspaced(t).cells =~= s.cells);
}

/// Moving left and then right returns the cursor to where it was, when the
/// character it moved over is printed.
pub proof fn lemma_right_undoes_left(s: ScreenState)
    requires
        0 < s.column <= BUFFER_WIDTH,
        printed(bottom_cell(s, s.column - 1)),
    ensures
        moved_right(moved_left(s)) == s,
{
}

/// Moving right and then left returns the cursor to where it was.
pub proof fn lemma_left_undoes_right(s: ScreenState)
    requires
        s.column <= BUFFER_WIDTH,
        moved_right(s) != s,
    ensures
        moved_left(moved_right(s)) == s,
{
}

/// After `end`, the character left of the cursor is printed and nothing to its
/// right on the bottom row is.
pub proof fn lemma_end_is_after_printed_text(s: ScreenState)
    requires
        last_printed_before(s, BUFFER_WIDTH as int) >= 0,
    ensures
        printed(bottom_cell(s, moved_end(s).column - 1)),
        forall|j: int|
            moved_end(s).column <= j < BUFFER_WIDTH ==> !#[trigger] printed(bottom_cell(s, j)),
{
    lemma_last_printed_bounds(s, BUFFER_WIDTH as int);
}

/// Printing text in two pieces leaves the same screen as printing it at once.
pub proof fn lemma_print_in_pieces(s: ScreenState, a: Seq<u8>, b: Seq<u8>)
    ensures
        after_bytes(after_bytes(s, a), b) == after_bytes(s, a + b),
    decreases b.len(),
{
    if b.len() == 0 {
        assert(a + b =~= a);
    } else {
        lemma_print_in_pieces(s, a, b.drop_last());
        assert((a + b).drop_last() =~= a + b.drop_last());
        assert((a + b).last() == b.last());
    }
}

/// Each color has its fixed VGA hardware number, and a number read back from
/// a screen word names the color with that number in its low four bits.
pub proof fn lemma_color_hardware_numbers()
    ensures
        color_number(Color::Black) == 0,
        color_number(Color::Blue) == 1,
        color_number(Color::Green) == 2,
        color_number(Color::Cyan) == 3,
        color_number(Color::Red) == 4,
        color_number(Color::Magenta) == 5,
        color_number(Color::Brown) == 6,
        color_number(Color::LightGray) == 7,
        color_number(Color::DarkGray) == 8,
        color_number(Color::LightBlue) == 9,
        color_number(Color::LightGreen) == 10,
        color_number(Color::LightCyan) == 11,
        color_number(Color::LightRed) == 12,
        color_number(Color::Pink) == 13,
        color_number(Color::Yellow) == 14,
        color_number(Color::White) == 15,
        forall|v: u8| v < 16 ==> color_number(#[trigger] color_of(v)) == v,
        forall|v: u8| #[trigger] color_of(v) == color_of(v % 16),
{
}

/// The layout of a screen word: the character in the low byte, the foreground
/// number in bits 8 to 11, the low three bits of the background number in bits
/// 12 to 14, and bit 15 set when the character blinks or the background number
/// is 8 or more.
pub proof fn lemma_word_layout(c: VgaChar)
    ensures
        encode_char(c) % 256 == c.ch,
        (encode_char(c) / 256) % 16 == color_number(c.fg),
        (encode_char(c) / 4096) % 8 == color_number(c.bg) % 8,
        (encode_char(c) >= 32768) == (c.blink || color_number(c.bg) >= 8),
{
    let f = color_number(c.fg) as u16;
    let b = color_number(c.bg) as u16;
    let k: u16 = if c.blink { 1 } else { 0 };
    let ch = c.ch as u16;
    let w = encode_char(c);
    lemma_color_number_round_trip(c.fg);
    lemma_color_number_round_trip(c.bg);
    assert(w % 256 == ch && (w / 256) % 16 == f && (w / 4096) % 8 == b % 8 && (w >= 32768) == (k
        == 1 || b >= 8)) by (bit_vector)
        requires
            ch < 256,
            f < 16,
            b < 16,
            k < 2,
            w == ch | (f << 8u16) | (b << 12u16) | (k << 15u16),
    ;
}

/// Moving left takes the cursor back one column, whatever the cells hold, and
/// changes nothing else; at column 0 nothing changes.
pub proof fn lemma_left_moves_one_column(s: ScreenState)
    ensures
        s.column > 0 ==> moved_left(s) == (ScreenState { column: (s.column - 1) as nat, ..s }),
        s.column == 0 ==> moved_left(s) == s,
{
}

/// Moving right takes the cursor on one column when it is not at column 80 and
/// the bottom-row cell under it shows a character, and changes nothing else;
/// otherwise nothing changes.
pub proof fn lemma_right_moves_over_text(s: ScreenState)
    ensures
        (s.column != 80 && s.cells[1920 + s.column as int] % 256 != 0) ==> moved_right(s) == (ScreenState {
            column: s.column + 1,
            ..s
        }),
        !(s.column != 80 && s.cells[1920 + s.column as int] % 256 != 0) ==> moved_right(s) == s,
{
}

/// Home puts the cursor at column 0 and changes nothing else.
pub proof fn lemma_home_goes_to_column_zero(s: ScreenState)
    ensures
        moved_home(s) == (ScreenState { column: 0, ..s }),
{
}

/// End puts the cursor just after the last character shown on the bottom row
/// and changes nothing else; with nothing shown there, nothing changes.
pub proof fn lemma_end_goes_past_the_text(s: ScreenState)
    ensures
        (exists|x: int| 0 <= x < 80 && #[trigger] s.cells[1920 + x] % 256 != 0) ==> {
            let c = moved_end(s).column;
            &&& 1 <= c <= 80
            &&& s.cells[1920 + c - 1] % 256 != 0
            &&& forall|j: int| c <= j < 80 ==> #[trigger] s.cells[1920 + j] % 256 == 0
            &&& moved_end(s) == (ScreenState { column: c, ..s })
        },
        !(exists|x: int| 0 <= x < 80 && #[trigger] s.cells[1920 + x] % 256 != 0) ==> moved_end(s)
            == s,
{
    lemma_last_printed_bounds(s, BUFFER_WIDTH as int);
    let k = last_printed_before(s, BUFFER_WIDTH as int);
    if exists|x: int| 0 <= x < 80 && #[trigger] s.cells[1920 + x] % 256 != 0 {
        let x = choose|x: int| 0 <= x < 80 && #[trigger] s.cells[1920 + x] % 256 != 0;
        assert(printed(bottom_cell(s, x)));
        assert(k >= 0);
        assert forall|j: int| k + 1 <= j < 80 implies #[trigger] s.cells[1920 + j] % 256 == 0 by {
            assert(!printed(bottom_cell(s, j)));
        }
    } else {
        if k >= 0 {
            assert(s.cells[1920 + k] % 256 != 0);
        }
    }
}

/// Backspace at a column `c > 0` blanks the cell left of the cursor in the
/// current colors and blink setting, moves the cursor onto it, and changes
/// nothing else; at column 0 nothing changes.
pub proof fn lemma_backspace_blanks_left_cell(s: ScreenState)
    ensures
        s.column > 0 ==> backspaced(s) == (ScreenState {
            column: (s.column - 1) as nat,
            cells: s.cells.update(
                1920 + s.column - 1,
                encode_char(VgaChar { ch: 0, fg: s.fg, bg: s.bg, blink: s.blink }),
            ),
            ..s
        }),
        s.column == 0 ==> backspaced(s) == s,
{
}

/// A newline starts a new line: every row moves up one, the top row is lost,
/// the bottom row is blank in the current colors and blink setting, the cursor
/// goes to column 0, and the colors stay.
pub proof fn lemma_newline_scrolls(s: ScreenState)
    ensures
        after_byte(s, 10).cells.len() == 2000,
        forall|x: int, y: int|
            0 <= x < 80 && 1 <= y < 25 ==> #[trigger] after_byte(s, 10).cells[(y - 1) * 80 + x]
                == s.cells[y * 80 + x],
        forall|x: int|
            0 <= x < 80 ==> #[trigger] after_byte(s, 10).cells[1920 + x] == encode_char(
                VgaChar { ch: 0, fg: s.fg, bg: s.bg, blink: s.blink },
            ),
        after_byte(s, 10).column == 0,
        after_byte(s, 10).fg == s.fg,
        after_byte(s, 10).bg == s.bg,
        after_byte(s, 10).blink == s.blink,
{
    assert forall|x: int, y: int| 0 <= x < 80 && 1 <= y < 25 implies #[trigger] after_byte(
        s,
        10,
    ).cells[(y - 1) * 80 + x] == s.cells[y * 80 + x] by {
        assert(0 <= (y - 1) * 80 + x < 1920) by (nonlinear_arith)
            requires
                0 <= x < 80,
                1 <= y < 25,
        ;
        assert((y - 1) * 80 + x + 80 == y * 80 + x) by (nonlinear_arith);
    }
}

/// Writing a byte other than a newline or a tab before column 80 stores it
/// at the cursor on the bottom row in the current colors and blink setting,
/// moves the cursor on one column and changes nothing else; at column 80 the
/// screen first starts a new line and the byte goes to column 0.
pub proof fn lemma_byte_is_stored_at_cursor(s: ScreenState, byte: u8)
    requires
        byte != 10,
        byte != 9,
    ensures
        s.column < 80 ==> after_byte(s, byte) == (ScreenState {
            column: s.column + 1,
            cells: s.cells.update(
                1920 + s.column as int,
                encode_char(VgaChar { ch: byte, fg: s.fg, bg: s.bg, blink: s.blink }),
            ),
            ..s
        }),
        s.column >= 80 ==> after_byte(s, byte) == after_byte(after_byte(s, 10), byte),
        s.column >= 80 ==> after_byte(s, 10).column == 0,
{
}

/// A tab before column 80 moves the cursor four columns on, stopping at column
/// 80, and changes nothing else; at column 80 it starts a new line.
pub proof fn lemma_tab_moves_cursor(s: ScreenState)
    ensures
        s.column < 76 ==> after_byte(s, 9) == (ScreenState { column: s.column + 4, ..s }),
        76 <= s.column < 80 ==> after_byte(s, 9) == (ScreenState { column: 80, ..s }),
        s.column >= 80 ==> after_byte(s, 9) == after_byte(s, 10),
{
}

} // verus!
