//! The text console: a fixed grid of character cells with a cursor that
//! always writes on the bottom row and scrolls the grid up on a newline.

use vstd::prelude::*;
use volatile::Volatile;
use vstd::string::StringSliceAdditionalSpecFns;

verus! {

/// The width of the character grid, in cells.
pub const BUFFER_WIDTH: usize = 80;

/// The height of the character grid, in rows.
pub const BUFFER_HEIGHT: usize = 25;

/// The sixteen colours of the text-mode palette.
#[derive(Debug, Clone, Copy, PartialEq, Eq, Structural)]
pub enum Color {
    Black,
    Blue,
    Green,
    Cyan,
    Red,
    Magenta,
    Brown,
    LightGray,
    DarkGray,
    LightBlue,
    LightGreen,
    LightCyan,
    LightRed,
    Pink,
    Yellow,
    White,
}

impl Color {
    /// The position of the colour in the palette, a number below sixteen.
    pub open spec fn palette_index(self) -> u8 {
        match self {
            Color::Black => 0,
            Color::Blue => 1,
            Color::Green => 2,
            Color::Cyan => 3,
            Color::Red => 4,
            Color::Magenta => 5,
            Color::Brown => 6,
            Color::LightGray => 7,
            Color::DarkGray => 8,
            Color::LightBlue => 9,
            Color::LightGreen => 10,
            Color::LightCyan => 11,
            Color::LightRed => 12,
            Color::Pink => 13,
            Color::Yellow => 14,
            Color::White => 15,
        }
    }

    /// The palette index as a byte.
    pub fn to_u8(self) -> (index: u8)
        ensures
            index == self.palette_index(),
            index < 16,
    {
        match self {
            Color::Black => 0,
            Color::Blue => 1,
            Color::Green => 2,
            Color::Cyan => 3,
            Color::Red => 4,
            Color::Magenta => 5,
            Color::Brown => 6,
            Color::LightGray => 7,
            Color::DarkGray => 8,
            Color::LightBlue => 9,
            Color::LightGreen => 10,
            Color::LightCyan => 11,
            Color::LightRed => 12,
            Color::Pink => 13,
            Color::Yellow => 14,
            Color::White => 15,
        }
    }
}

/// A foreground and a background colour packed into one byte: the
/// background in the high nibble, the foreground in the low nibble.
#[derive(Debug, Clone, Copy, PartialEq, Eq, Structural)]
pub struct ColorCode(pub u8);

impl ColorCode {
    /// The byte that encodes `foreground` on `background`.
    pub open spec fn encode(foreground: Color, background: Color) -> u8 {
        (background.palette_index() << 4) | foreground.palette_index()
    }

    /// The colours `foreground` on `background` as one byte.
    pub fn new(foreground: Color, background: Color) -> (code: ColorCode)
        ensures
            code.0 == Self::encode(foreground, background),
            code.0 == background.palette_index() * 16 + foreground.palette_index(),
            code.0 >> 4 == background.palette_index(),
            code.0 & 0x0f == foreground.palette_index(),
    {
        let fg: u8 = foreground.to_u8();
        let bg: u8 = background.to_u8();
        assert({
            &&& (bg << 4) | fg == bg * 16 + fg
            &&& ((bg << 4) | fg) >> 4 == bg
            &&& ((bg << 4) | fg) & 0x0f == fg
        }) by (bit_vector)
            requires
                fg < 16,
                bg < 16,
        ;
        ColorCode((bg << 4) | fg)
    }
}

/// One cell of the grid: a character byte and the colours it is shown in.
#[derive(Debug, Clone, Copy, PartialEq, Eq, Structural)]
pub struct ScreenChar {
    pub ascii_character: u8,
    pub color_code: ColorCode,
}

/// The glyph stored for a byte that has no printable form.
pub const FALLBACK_GLYPH: u8 = 0xfe;

/// The number of spaces that a tab is expanded to.
pub const TAB_WIDTH: usize = 5;

/// Whether `byte` is printable ASCII: a space up to a tilde.
pub open spec fn is_printable(byte: u8) -> bool {
    0x20 <= byte <= 0x7e
}

/// The character stored for `byte`: the byte itself where it is printable,
/// the fallback glyph where it is not.
pub open spec fn glyph(byte: u8) -> u8 {
    if is_printable(byte) {
        byte
    } else {
        FALLBACK_GLYPH
    }
}

/// A space in the given colours.
pub open spec fn blank_cell(color: ColorCode) -> ScreenChar {
    ScreenChar { ascii_character: 0x20, color_code: color }
}

/// A row of blank cells.
pub open spec fn blank_row(color: ColorCode) -> Seq<ScreenChar> {
    Seq::new(BUFFER_WIDTH as nat, |col: int| blank_cell(color))
}

/// The console as a mathematical value: the cursor's column, the colours in
/// use, and the grid as a sequence of rows, the top row first.
pub struct Screen {
    pub column: int,
    pub color: ColorCode,
    pub rows: Seq<Seq<ScreenChar>>,
}

impl Screen {
    /// The grid has `BUFFER_HEIGHT` rows of `BUFFER_WIDTH` cells and the
    /// cursor stands on a column of the row or just behind its last one.
    pub open spec fn wf(self) -> bool {
        &&& 0 <= self.column <= BUFFER_WIDTH
        &&& self.rows.len() == BUFFER_HEIGHT
        &&& forall|row: int| 0 <= row < BUFFER_HEIGHT ==> (#[trigger] self.rows[row]).len() == BUFFER_WIDTH
    }

    /// The cell at `row` and `col`.
    pub open spec fn cell(self, row: int, col: int) -> ScreenChar {
        self.rows[row][col]
    }

    /// Row `row` filled with blanks in the current colours.
    pub open spec fn clear_row(self, row: int) -> Screen {
        Screen { rows: self.rows.update(row, blank_row(self.color)), ..self }
    }

    /// The top row dropped, a blank row added at the bottom, the cursor at
    /// the start of it.
    pub open spec fn new_line(self) -> Screen {
        Screen {
            column: 0,
            color: self.color,
            rows: self.rows.subrange(1, BUFFER_HEIGHT as int).push(blank_row(self.color)),
        }
    }

    /// The screen on which the next character is placed: this one, or, with
    /// the cursor behind the last column, the one after a line break.
    pub open spec fn wrapped(self) -> Screen {
        if self.column >= BUFFER_WIDTH {
            self.new_line()
        } else {
            self
        }
    }

    /// `character` placed at the cursor on the bottom row, after a line
    /// break where the row is full, and the cursor moved one column on.
    pub open spec fn put(self, character: u8) -> Screen {
        let at = self.wrapped();
        let last = BUFFER_HEIGHT - 1;
        Screen {
            column: at.column + 1,
            color: at.color,
            rows: at.rows.update(
                last,
                at.rows[last].update(
                    at.column,
                    ScreenChar { ascii_character: character, color_code: at.color },
                ),
            ),
        }
    }

    /// `count` spaces placed one after the other.
    pub open spec fn put_spaces(self, count: nat) -> Screen
        decreases count,
    {
        if count == 0 {
            self
        } else {
            self.put_spaces((count - 1) as nat).put(0x20)
        }
    }

    /// The effect of one byte: a newline breaks the line, a tab places
    /// `TAB_WIDTH` spaces, any other byte places its glyph.
    pub open spec fn write_byte(self, byte: u8) -> Screen {
        if byte == 0x0a {
            self.new_line()
        } else if byte == 0x09 {
            self.put_spaces(TAB_WIDTH as nat)
        } else {
            self.put(glyph(byte))
        }
    }

    /// The effect of the bytes of `bytes`, first to last.
    pub open spec fn write_bytes(self, bytes: Seq<u8>) -> Screen
        decreases bytes.len(),
    {
        if bytes.len() == 0 {
            self
        } else {
            self.write_bytes(bytes.drop_last()).write_byte(bytes.last())
        }
    }
}

/// `volatile::Volatile`: a cell whose reads and writes the compiler leaves
/// as they are written. Nothing of its inside is read here.
#[verifier::external_type_specification]
#[verifier::external_body]
#[verifier::reject_recursive_types(T)]
pub struct ExVolatile<T: Copy>(Volatile<T>);

/// The value that a volatile cell holds.
pub uninterp spec fn cell_value(cell: Volatile<ScreenChar>) -> ScreenChar;

/// `Volatile::new`: the new cell holds the value it was made from.
#[verifier::external_body]
fn cell_new(value: ScreenChar) -> (cell: Volatile<ScreenChar>)
    ensures
        cell_value(cell) == value,
{
    Volatile::new(value)
}

/// `Volatile::read`: a volatile read gives the value that the cell holds.
#[verifier::external_body]
fn cell_read(cell: &Volatile<ScreenChar>) -> (value: ScreenChar)
    ensures
        value == cell_value(*cell),
{
    cell.read()
}

/// `Volatile::write`: after a volatile write the cell holds the value
/// written; the call does not panic.
#[verifier::external_body]
fn cell_write(cell: &mut Volatile<ScreenChar>, value: ScreenChar)
    ensures
        cell_value(*final(cell)) == value,
    no_unwind
{
    cell.write(value)
}

/// The character grid: `BUFFER_HEIGHT` rows of `BUFFER_WIDTH` volatile
/// cells, kept row after row as display memory has them.
pub struct Buffer {
    chars: Vec<Volatile<ScreenChar>>,
}

impl View for Buffer {
    type V = Seq<Seq<ScreenChar>>;

    /// The rows of the grid, the top row first, each as the values that its
    /// cells hold.
    closed spec fn view(&self) -> Seq<Seq<ScreenChar>> {
        Seq::new(
            BUFFER_HEIGHT as nat,
            |row: int| Seq::new(BUFFER_WIDTH as nat, |col: int| cell_value(self.chars[row * BUFFER_WIDTH + col])),
        )
    }
}

impl Buffer {
    #[verifier::type_invariant]
    spec fn well_formed(&self) -> bool {
        self.chars.len() == BUFFER_HEIGHT * BUFFER_WIDTH
    }

    /// A grid in which every cell holds `fill`.
    pub fn new(fill: ScreenChar) -> (buffer: Buffer)
        ensures
            buffer@ == Seq::new(BUFFER_HEIGHT as nat, |row: int| Seq::new(BUFFER_WIDTH as nat, |col: int| fill)),
    {
        let mut chars: Vec<Volatile<ScreenChar>> = Vec::new();
        let mut index: usize = 0;
        while index < BUFFER_HEIGHT * BUFFER_WIDTH
            invariant
                index <= BUFFER_HEIGHT * BUFFER_WIDTH,
                chars.len() == index,
                forall|i: int| 0 <= i < index ==> cell_value(#[trigger] chars[i]) == fill,
            decreases BUFFER_HEIGHT * BUFFER_WIDTH - index,
        {
            chars.push(cell_new(fill));
            index += 1;
        }
        let buffer = Buffer { chars };
        assert(buffer@ =~~= Seq::new(BUFFER_HEIGHT as nat, |row: int| Seq::new(BUFFER_WIDTH as nat, |col: int| fill)));
        buffer
    }

    /// The value of the cell at `row` and `col`.
    pub fn read(&self, row: usize, col: usize) -> (value: ScreenChar)
        requires
            row < BUFFER_HEIGHT,
            col < BUFFER_WIDTH,
        ensures
            value == self@[row as int][col as int],
    {
        proof {
            use_type_invariant(self);
        }
        cell_read(&self.chars[row * BUFFER_WIDTH + col])
    }

    /// Stores `value` in the cell at `row` and `col`.
    pub fn write(&mut self, row: usize, col: usize, value: ScreenChar)
        requires
            row < BUFFER_HEIGHT,
            col < BUFFER_WIDTH,
        ensures
            final(self)@ == old(self)@.update(row as int, old(self)@[row as int].update(col as int, value)),
        no_unwind
    {
        proof {
            use_type_invariant(&*self);
        }
        cell_write(&mut self.chars[row * BUFFER_WIDTH + col], value);
        assert(self@ =~~= old(self)@.update(row as int, old(self)@[row as int].update(col as int, value)));
    }
}

/// The console writer: the grid, the colours that new cells get, and the
/// column of the bottom row at which the next character is placed.
pub struct Writer {
    column_position: usize,
    color_code: ColorCode,
    buffer: Buffer,
}

impl View for Writer {
    type V = Screen;

    /// The screen that the writer stands for. The cursor's column is that
    /// of the writer, which never lies beyond the end of the row.
    closed spec fn view(&self) -> Screen {
        Screen {
            column: if self.column_position <= BUFFER_WIDTH {
                self.column_position as int
            } else {
                BUFFER_WIDTH as int
            },
            color: self.color_code,
            rows: self.buffer@,
        }
    }
}

impl Writer {
    #[verifier::type_invariant]
    spec fn well_formed(&self) -> bool {
        self.column_position <= BUFFER_WIDTH
    }

    /// The screen of a writer is well formed: the grid has its full size
    /// and the cursor stands on the bottom row or just behind its last column.
    pub proof fn lemma_view_wf(&self)
        ensures
            self@.wf(),
    {
    }

    /// A writer on `buffer` that writes in `color_code`, its cursor at the
    /// start of the bottom row.
    pub fn new(color_code: ColorCode, buffer: Buffer) -> (writer: Writer)
        ensures
            writer@ == (Screen { column: 0, color: color_code, rows: buffer@ }),
            writer@.wf(),
    {
        Writer { column_position: 0, color_code, buffer }
    }

    /// The column of the bottom row at which the next character is placed;
    /// `BUFFER_WIDTH` where the row is full.
    pub fn column_position(&self) -> (column: usize)
        ensures
            column == self@.column,
            column <= BUFFER_WIDTH,
    {
        proof {
            use_type_invariant(self);
        }
        self.column_position
    }

    /// The colours that the writer writes in.
    pub fn color_code(&self) -> (color: ColorCode)
        ensures
            color == self@.color,
    {
        self.color_code
    }

    /// The cell at `row` and `col`.
    pub fn read(&self, row: usize, col: usize) -> (value: ScreenChar)
        requires
            row < BUFFER_HEIGHT,
            col < BUFFER_WIDTH,
        ensures
            value == self@.cell(row as int, col as int),
    {
        self.buffer.read(row, col)
    }

    /// Writes the bytes of `s`, first to last.
    pub fn write_string(&mut self, s: &str)
        ensures
            final(self)@ == old(self)@.write_bytes(s.spec_bytes()),
            final(self)@.wf(),
    {
        let bytes = s.as_bytes();
        let mut index: usize = 0;
        proof {
            use_type_invariant(&*self);
            assert(bytes@.take(0) =~= Seq::<u8>::empty());
        }
        while index < bytes.len()
            invariant
                index <= bytes.len(),
                self@ == old(self)@.write_bytes(bytes@.take(index as int)),
                self@.wf(),
            decreases bytes.len() - index,
        {
            proof {
                let next = bytes@.take(index + 1);
                assert(next.drop_last() =~= bytes@.take(index as int));
                assert(next.last() == bytes@[index as int]);
            }
            self.write_byte(bytes[index]);
            index += 1;
        }
        proof {
            assert(bytes@.take(index as int) =~= bytes@);
        }
    }

    /// Writes one byte: a newline breaks the line, a tab becomes `TAB_WIDTH`
    /// spaces, a printable byte is placed at the cursor, and any other byte
    /// is placed as the fallback glyph.
    pub fn write_byte(&mut self, byte: u8)
        ensures
            final(self)@ == old(self)@.write_byte(byte),
            final(self)@.wf(),
        decreases (if byte == 0x09 { 1nat } else { 0nat }),
    {
        proof {
            use_type_invariant(&*self);
        }
        if byte == 0x0a {
            self.new_line();
        } else if byte == 0x09 {
            let mut count: usize = 0;
            while count < TAB_WIDTH
                invariant
                    count <= TAB_WIDTH,
                    byte == 0x09,
                    self@ == old(self)@.put_spaces(count as nat),
                    self@.wf(),
                decreases TAB_WIDTH - count,
            {
                self.write_byte(0x20);
                count += 1;
            }
        } else {
            if self.column_position >= BUFFER_WIDTH {
                self.new_line();
            }
            let row: usize = BUFFER_HEIGHT - 1;
            let col: usize = self.column_position;
            let character: u8 = if 0x20 <= byte && byte <= 0x7e {
                byte
            } else {
                FALLBACK_GLYPH
            };
            self.buffer.write(row, col, ScreenChar { ascii_character: character, color_code: self.color_code });
            self.column_position += 1;
        }
    }

    /// Moves every row up by one, which drops the top row, blanks the bottom
    /// row and puts the cursor at its start.
    pub fn new_line(&mut self)
        ensures
            final(self)@ == old(self)@.new_line(),
            final(self)@.wf(),
    {
        proof {
            use_type_invariant(&*self);
        }
        let mut row: usize = 1;
        while row < BUFFER_HEIGHT
            invariant
                1 <= row <= BUFFER_HEIGHT,
                self.column_position == old(self).column_position,
                self.column_position <= BUFFER_WIDTH,
                self.color_code == old(self).color_code,
                self.buffer@.len() == BUFFER_HEIGHT,
                forall|r: int| 0 <= r < row - 1 ==> #[trigger] self.buffer@[r] == old(self).buffer@[r + 1],
                forall|r: int| row - 1 <= r < BUFFER_HEIGHT ==> #[trigger] self.buffer@[r] == old(self).buffer@[r],
            decreases BUFFER_HEIGHT - row,
        {
            let ghost before = self.buffer@;
            let mut col: usize = 0;
            while col < BUFFER_WIDTH
                invariant
                    1 <= row < BUFFER_HEIGHT,
                    col <= BUFFER_WIDTH,
                    self.column_position == old(self).column_position,
                    self.column_position <= BUFFER_WIDTH,
                    self.color_code == old(self).color_code,
                    self.buffer@.len() == BUFFER_HEIGHT,
                    before.len() == BUFFER_HEIGHT,
                    before[row - 1].len() == BUFFER_WIDTH,
                    before[row as int].len() == BUFFER_WIDTH,
                    self.buffer@[row - 1].len() == BUFFER_WIDTH,
                    forall|r: int| 0 <= r < BUFFER_HEIGHT && r != row - 1 ==> #[trigger] self.buffer@[r] == before[r],
                    forall|c: int| 0 <= c < col ==> #[trigger] self.buffer@[row - 1][c] == before[row as int][c],
                    forall|c: int| col <= c < BUFFER_WIDTH ==> #[trigger] self.buffer@[row - 1][c] == before[row - 1][c],
                decreases BUFFER_WIDTH - col,
            {
                let character = self.buffer.read(row, col);
                self.buffer.write(row - 1, col, character);
                col += 1;
            }
            assert(self.buffer@[row - 1] =~= before[row as int]);
            row += 1;
        }
        self.clear_row(BUFFER_HEIGHT - 1);
        self.column_position = 0;
        assert(self@.rows =~= old(self)@.new_line().rows);
    }

    /// Fills row `row` with spaces in the current colours.
    pub fn clear_row(&mut self, row: usize)
        requires
            row < BUFFER_HEIGHT,
        ensures
            final(self)@ == old(self)@.clear_row(row as int),
            final(self)@.wf(),
    {
        proof {
            use_type_invariant(&*self);
        }
        let blank = ScreenChar { ascii_character: 0x20, color_code: self.color_code };
        let mut col: usize = 0;
        while col < BUFFER_WIDTH
            invariant
                row < BUFFER_HEIGHT,
                col <= BUFFER_WIDTH,
                blank == blank_cell(old(self).color_code),
                self.column_position == old(self).column_position,
                self.column_position <= BUFFER_WIDTH,
                self.color_code == old(self).color_code,
                self.buffer@.len() == BUFFER_HEIGHT,
                self.buffer@[row as int].len() == BUFFER_WIDTH,
                forall|r: int| 0 <= r < BUFFER_HEIGHT && r != row ==> #[trigger] self.buffer@[r] == old(self).buffer@[r],
                forall|c: int| 0 <= c < col ==> #[trigger] self.buffer@[row as int][c] == blank,
            decreases BUFFER_WIDTH - col,
        {
            self.buffer.write(row, col, blank);
            col += 1;
        }
        assert(self.buffer@[row as int] =~= blank_row(self.color_code));
        assert(self@.rows =~= old(self)@.clear_row(row as int).rows);
    }
}

/// `core::fmt::Error`, the error of `core::fmt::Write`. The writer never
/// makes one.
#[verifier::external_type_specification]
#[verifier::external_body]
pub struct ExFmtError(core::fmt::Error);

impl core::fmt::Write for Writer {
    /// Writes the bytes of `s`, first to last; this never fails.
    fn write_str(&mut self, s: &str) -> (result: Result<(), core::fmt::Error>)
        ensures
            result is Ok,
            final(self)@ == old(self)@.write_bytes(s.spec_bytes()),
            final(self)@.wf(),
    {
        self.write_string(s);
        Ok(())
    }
}

} // verus!
