//! What goes onto the screen, and where.
//!
//! The display has a text mode of 80 columns and 25 rows and a graphics
//! mode of 640 by 480 pixels. This module keeps the cursor and the colors
//! and works out what is to be done to the hardware; it does not touch the
//! hardware. Every operation hands back the list of steps that the caller
//! then performs in order.

use vstd::prelude::*;
use vstd::string::StringSliceAdditionalSpecFns;
use crate::text::chars_of;

verus! {

/// The columns of the text mode.
pub const BUFFER_WIDTH: usize = 80;

/// The rows of the text mode.
pub const BUFFER_HEIGHT: usize = 25;

/// The byte that is written for a byte that cannot be shown.
pub const UNPRINTABLE: u8 = 0xfe;

/// The port that selects a register of the display controller.
pub const CONTROL_PORT: u16 = 0x3d4;

/// The port through which the selected register is read and written.
pub const DATA_PORT: u16 = 0x3d5;

/// The register that holds the low byte of the cursor's place.
pub const CURSOR_LOW: u8 = 0x0f;

/// The register that holds the high byte of the cursor's place.
pub const CURSOR_HIGH: u8 = 0x0e;

/// The sixteen colors.
#[derive(Clone, Copy, Debug, PartialEq, Eq, Structural)]
pub enum Color {
    Black,
    Blue,
    Green,
    Cyan,
    Red,
    Magenta,
    Brown,
    LightGrey,
    DarkGrey,
    LightBlue,
    LightGreen,
    LightCyan,
    LightRed,
    Pink,
    Yellow,
    White,
}

impl Color {
    /// The number of the color, as the hardware has it.
    pub open spec fn spec_code(self) -> u8 {
        match self {
            Color::Black => 0,
            Color::Blue => 1,
            Color::Green => 2,
            Color::Cyan => 3,
            Color::Red => 4,
            Color::Magenta => 5,
            Color::Brown => 6,
            Color::LightGrey => 7,
            Color::DarkGrey => 8,
            Color::LightBlue => 9,
            Color::LightGreen => 10,
            Color::LightCyan => 11,
            Color::LightRed => 12,
            Color::Pink => 13,
            Color::Yellow => 14,
            Color::White => 15,
        }
    }

    /// The number of the color, as the hardware has it.
    #[verifier::when_used_as_spec(spec_code)]
    pub fn code(self) -> (code: u8)
        ensures
            code == self.spec_code(),
            code < 16,
    {
        match self {
            Color::Black => 0,
            Color::Blue => 1,
            Color::Green => 2,
            Color::Cyan => 3,
            Color::Red => 4,
            Color::Magenta => 5,
            Color::Brown => 6,
            Color::LightGrey => 7,
            Color::DarkGrey => 8,
            Color::LightBlue => 9,
            Color::LightGreen => 10,
            Color::LightCyan => 11,
            Color::LightRed => 12,
            Color::Pink => 13,
            Color::Yellow => 14,
            Color::White => 15,
        }
    }

    /// The color with the number `code`, of which the low four bits count.
    pub fn from_code(code: u8) -> (color: Color)
        ensures
            color.code() == code & 0x0f,
    {
        let low = code & 0x0f;
        assert(low < 16) by (bit_vector)
            requires
                low == code & 0x0f,
        ;
        match low {
            0 => Color::Black,
            1 => Color::Blue,
            2 => Color::Green,
            3 => Color::Cyan,
            4 => Color::Red,
            5 => Color::Magenta,
            6 => Color::Brown,
            7 => Color::LightGrey,
            8 => Color::DarkGrey,
            9 => Color::LightBlue,
            10 => Color::LightGreen,
            11 => Color::LightCyan,
            12 => Color::LightRed,
            13 => Color::Pink,
            14 => Color::Yellow,
            _ => Color::White,
        }
    }
}

/// One cell of the text screen: a byte in two colors.
#[derive(Clone, Copy, Debug, PartialEq, Eq, Structural)]
pub struct ScreenCharacter {
    pub character: u8,
    pub foreground: Color,
    pub background: Color,
}

impl ScreenCharacter {
    /// The cell as the text buffer holds it: the byte below, the colors
    /// above it, background over foreground.
    pub open spec fn encoded(self) -> u16 {
        (self.character as u16) | ((self.foreground.code() as u16) << 8) | ((
        self.background.code() as u16) << 12)
    }

    /// The cell that the text buffer holds as `value`.
    pub fn decode(value: u16) -> (cell: ScreenCharacter)
        ensures
            cell.encoded() == value,
            cell.character == value & 0xff,
            cell.foreground.code() == (value >> 8) & 0x0f,
            cell.background.code() == (value >> 12) & 0x0f,
    {
        let low = value & 0xff;
        let high = value >> 8;
        assert(low < 256 && high < 256) by (bit_vector)
            requires
                low == value & 0xff,
                high == value >> 8,
        ;
        let ascii = low as u8;
        let color_code = high as u8;
        let foreground = Color::from_code(color_code & 0x0f);
        let background = Color::from_code((color_code >> 4) & 0x0f);
        proof {
            let fg = foreground.code();
            let bg = background.code();
            assert(fg == (value >> 8) & 0x0f && bg == (value >> 12) & 0x0f && (ascii as u16) | ((fg as u16)
                << 8) | ((bg as u16) << 12) == value) by (bit_vector)
                requires
                    ascii as u16 == value & 0xff,
                    color_code as u16 == value >> 8,
                    fg == (color_code & 0x0f) & 0x0f,
                    bg == ((color_code >> 4) & 0x0f) & 0x0f,
            ;
        }
        ScreenCharacter { character: ascii, foreground, background }
    }

    /// Where the cell in column `col` of row `row` lies in the text buffer,
    /// counted in cells.
    pub fn offset(col: usize, row: usize) -> (offset: usize)
        requires
            col < BUFFER_WIDTH,
            row < BUFFER_HEIGHT,
        ensures
            offset == row * BUFFER_WIDTH + col,
    {
        row * BUFFER_WIDTH + col
    }
}

/// One step on the hardware.
#[allow(inconsistent_fields)]
#[derive(Clone, Copy, Debug, PartialEq, Eq, Structural)]
pub enum DisplayOp {
    /// Switch the display to the text mode.
    SetTextMode,
    /// Blank every cell of the text screen.
    ClearText,
    /// Put a cell on the text screen.
    WriteCharacter { col: usize, row: usize, character: ScreenCharacter },
    /// Put the cell that stands in `from_row` into `to_row`, in the same
    /// column.
    CopyCharacter { col: usize, from_row: usize, to_row: usize },
    /// Write a byte to a port.
    PortWrite { port: u16, value: u8 },
    /// Switch the display to the graphics mode.
    SetGraphicsMode,
    /// Fill the graphics screen with a color.
    ClearGraphics { color: Color },
    /// Draw a character with its corner at a pixel.
    DrawCharacter { x: usize, y: usize, character: char, color: Color },
    /// Color one pixel.
    SetPixel { x: usize, y: usize, color: Color },
    /// Let time pass: spin for so many rounds.
    Pause { spins: usize },
}

/// The steps that put the hardware cursor at column `col` of row `row`:
/// the place, counted in cells, goes to the controller in two bytes.
pub open spec fn cursor_ops(row: int, col: int) -> Seq<DisplayOp> {
    let place = row * BUFFER_WIDTH + col;
    seq![
        DisplayOp::PortWrite { port: CONTROL_PORT, value: CURSOR_LOW },
        DisplayOp::PortWrite { port: DATA_PORT, value: (place % 256) as u8 },
        DisplayOp::PortWrite { port: CONTROL_PORT, value: CURSOR_HIGH },
        DisplayOp::PortWrite { port: DATA_PORT, value: ((place / 256) % 256) as u8 },
    ]
}

/// The steps that move every row of the text screen up by one and blank
/// the last: the cells are copied row by row from the second on, each row
/// from the left, and then the last row is filled with `blank`.
pub open spec fn scroll_ops(blank: ScreenCharacter) -> Seq<DisplayOp> {
    Seq::new(
        ((BUFFER_HEIGHT - 1) * BUFFER_WIDTH) as nat,
        |i: int|
            DisplayOp::CopyCharacter {
                col: (i % (BUFFER_WIDTH as int)) as usize,
                from_row: (i / (BUFFER_WIDTH as int) + 1) as usize,
                to_row: (i / (BUFFER_WIDTH as int)) as usize,
            },
    ) + row_ops((BUFFER_HEIGHT - 1) as usize, blank)
}

/// The steps that fill row `row` with `blank`, from the left.
pub open spec fn row_ops(row: usize, blank: ScreenCharacter) -> Seq<DisplayOp> {
    Seq::new(
        BUFFER_WIDTH as nat,
        |col: int| DisplayOp::WriteCharacter { col: col as usize, row, character: blank },
    )
}

/// The byte that is written for `byte`: itself where it can be shown or
/// ends a line, a mark where it cannot.
pub open spec fn shown(byte: u8) -> u8 {
    if (0x20 <= byte <= 0x7e) || byte == 0x0a {
        byte
    } else {
        UNPRINTABLE
    }
}

/// The text mode as a mathematical value.
pub struct TextState {
    pub foreground: Color,
    pub background: Color,
    /// The column of the cursor; `BUFFER_WIDTH` where a row is full.
    pub column: usize,
    /// The row of the cursor.
    pub row: usize,
}

impl TextState {
    /// The cursor is on the screen, or just behind the end of a row.
    pub open spec fn wf(self) -> bool {
        self.column <= BUFFER_WIDTH && self.row < BUFFER_HEIGHT
    }

    /// A blank in the colors of the text.
    pub open spec fn blank(self) -> ScreenCharacter {
        ScreenCharacter {
            character: 0x20,
            foreground: self.foreground,
            background: self.background,
        }
    }

    /// After the start of a new line: the cursor is at the left of the next
    /// row, or of the last row where it was there already.
    pub open spec fn after_new_line(self) -> TextState {
        TextState {
            column: 0,
            row: if self.row >= BUFFER_HEIGHT - 1 {
                (BUFFER_HEIGHT - 1) as usize
            } else {
                (self.row + 1) as usize
            },
            ..self
        }
    }

    /// The steps of a new line: from the last row the screen is moved up;
    /// then the cursor is placed.
    pub open spec fn new_line_ops(self) -> Seq<DisplayOp> {
        let scroll = if self.row >= BUFFER_HEIGHT - 1 {
            scroll_ops(self.blank())
        } else {
            Seq::empty()
        };
        scroll + cursor_ops(self.after_new_line().row as int, 0)
    }

    /// The state in which a byte other than a line feed is placed: a new
    /// line is begun first where the row is full.
    pub open spec fn with_room(self) -> TextState {
        if self.column >= BUFFER_WIDTH {
            self.after_new_line()
        } else {
            self
        }
    }

    /// After `byte` has been written: a line feed begins a new line, and
    /// any other byte moves the cursor one to the right.
    pub open spec fn after_byte(self, byte: u8) -> TextState {
        if byte == 0x0a {
            self.after_new_line()
        } else {
            TextState { column: (self.with_room().column + 1) as usize, ..self.with_room() }
        }
    }

    /// The steps of writing `byte`: for a line feed those of a new line;
    /// for any other byte those of a new line where the row is full, then
    /// the cell at the cursor, then the cursor one to the right.
    pub open spec fn byte_ops(self, byte: u8) -> Seq<DisplayOp> {
        if byte == 0x0a {
            self.new_line_ops()
        } else {
            let wrap = if self.column >= BUFFER_WIDTH {
                self.new_line_ops()
            } else {
                Seq::empty()
            };
            let at = self.with_room();
            wrap + seq![
                DisplayOp::WriteCharacter {
                    col: at.column,
                    row: at.row,
                    character: ScreenCharacter {
                        character: byte,
                        foreground: self.foreground,
                        background: self.background,
                    },
                },
            ] + cursor_ops(at.row as int, at.column + 1)
        }
    }

    /// After `bytes` have been written, each as `shown` has it.
    pub open spec fn after_bytes(self, bytes: Seq<u8>) -> TextState
        decreases bytes.len(),
    {
        if bytes.len() == 0 {
            self
        } else {
            self.after_bytes(bytes.drop_last()).after_byte(shown(bytes.last()))
        }
    }

    /// The steps of writing `bytes`, each as `shown` has it.
    pub open spec fn bytes_ops(self, bytes: Seq<u8>) -> Seq<DisplayOp>
        decreases bytes.len(),
    {
        if bytes.len() == 0 {
            Seq::empty()
        } else {
            self.bytes_ops(bytes.drop_last()) + self.after_bytes(bytes.drop_last()).byte_ops(
                shown(bytes.last()),
            )
        }
    }

    /// After a backspace: the cursor is one to the left, unless it was at
    /// the left already.
    pub open spec fn after_backspace(self) -> TextState {
        if self.column > 0 {
            TextState { column: (self.column - 1) as usize, ..self }
        } else {
            self
        }
    }

    /// The steps of a backspace: the cell left of the cursor is blanked
    /// and the cursor placed there; nothing at the left of the row.
    pub open spec fn backspace_ops(self) -> Seq<DisplayOp> {
        if self.column > 0 {
            seq![
                DisplayOp::WriteCharacter {
                    col: (self.column - 1) as usize,
                    row: self.row,
                    character: self.blank(),
                },
            ] + cursor_ops(self.row as int, self.column - 1)
        } else {
            Seq::empty()
        }
    }

    /// With the cursor at `row` and `col`, where that is on the screen;
    /// unchanged where it is not.
    pub open spec fn with_cursor(self, row: usize, col: usize) -> TextState {
        if row < BUFFER_HEIGHT && col < BUFFER_WIDTH {
            TextState { row, column: col, ..self }
        } else {
            self
        }
    }

    /// Every writing leaves the cursor where it may be.
    pub proof fn lemma_after_byte_wf(self, byte: u8)
        requires
            self.wf(),
        ensures
            self.after_byte(byte).wf(),
    {
    }
}

/// The steps that put the hardware cursor at column `col` of row `row`.
fn cursor_steps(row: usize, col: usize) -> (ops: Vec<DisplayOp>)
    requires
        row * BUFFER_WIDTH + col <= usize::MAX,
    ensures
        ops@ == cursor_ops(row as int, col as int),
{
    let pos = row * BUFFER_WIDTH + col;
    let low = pos & 0xff;
    let high = (pos >> 8) & 0xff;
    assert(low == pos % 256 && high == (pos / 256) % 256 && low < 256 && high < 256) by (bit_vector)
        requires
            low == pos & 0xff,
            high == (pos >> 8) & 0xff,
    ;
    let mut ops: Vec<DisplayOp> = Vec::new();
    ops.push(DisplayOp::PortWrite { port: CONTROL_PORT, value: CURSOR_LOW });
    ops.push(DisplayOp::PortWrite { port: DATA_PORT, value: low as u8 });
    ops.push(DisplayOp::PortWrite { port: CONTROL_PORT, value: CURSOR_HIGH });
    ops.push(DisplayOp::PortWrite { port: DATA_PORT, value: high as u8 });
    proof {
        assert(ops@ =~= cursor_ops(row as int, col as int));
    }
    ops
}

/// The text mode of the display: the colors in which it writes, and the
/// place of its cursor.
pub struct TextMode {
    foreground: Color,
    background: Color,
    column_position: usize,
    row_position: usize,
}

impl View for TextMode {
    type V = TextState;

    closed spec fn view(&self) -> TextState {
        TextState {
            foreground: self.foreground,
            background: self.background,
            column: self.column_position,
            row: self.row_position,
        }
    }
}

impl TextMode {
    #[verifier::type_invariant]
    spec fn well_formed(&self) -> bool {
        self.column_position <= BUFFER_WIDTH && self.row_position < BUFFER_HEIGHT
    }

    /// The text mode, white on black, with the cursor in the corner; the
    /// steps switch the display to it and clear the screen.
    pub fn new() -> (made: (TextMode, Vec<DisplayOp>))
        ensures
            made.0@ == (TextState {
                foreground: Color::White,
                background: Color::Black,
                column: 0,
                row: 0,
            }),
            made.1@ == seq![DisplayOp::SetTextMode, DisplayOp::ClearText],
    {
        let mut ops: Vec<DisplayOp> = Vec::new();
        ops.push(DisplayOp::SetTextMode);
        ops.push(DisplayOp::ClearText);
        proof {
            assert(ops@ =~= seq![DisplayOp::SetTextMode, DisplayOp::ClearText]);
        }
        (
            TextMode {
                foreground: Color::White,
                background: Color::Black,
                column_position: 0,
                row_position: 0,
            },
            ops,
        )
    }

    /// Writes `byte` at the cursor. A line feed begins a new line; any
    /// other byte is put as it is, on a new line where the row is full.
    pub fn write_byte(&mut self, byte: u8) -> (ops: Vec<DisplayOp>)
        ensures
            final(self)@.wf(),
            final(self)@ == old(self)@.after_byte(byte),
            ops@ == old(self)@.byte_ops(byte),
    {
        proof {
            use_type_invariant(&*self);
        }
        if byte == 0x0a {
            self.new_line()
        } else {
            let mut ops: Vec<DisplayOp> = Vec::new();
            if self.column_position >= BUFFER_WIDTH {
                ops = self.new_line();
            }
            proof {
                use_type_invariant(&*self);
            }
            let ghost wrap = ops@;
            ops.push(
                DisplayOp::WriteCharacter {
                    col: self.column_position,
                    row: self.row_position,
                    character: ScreenCharacter {
                        character: byte,
                        foreground: self.foreground,
                        background: self.background,
                    },
                },
            );
            self.column_position = self.column_position + 1;
            let mut cursor = cursor_steps(self.row_position, self.column_position);
            ops.append(&mut cursor);
            proof {
                let at = old(self)@.with_room();
                assert(ops@ =~= wrap + seq![
                    DisplayOp::WriteCharacter {
                        col: at.column,
                        row: at.row,
                        character: ScreenCharacter {
                            character: byte,
                            foreground: self.foreground,
                            background: self.background,
                        },
                    },
                ] + cursor_ops(at.row as int, at.column + 1));
            }
            ops
        }
    }

    /// Begins a new line.
    fn new_line(&mut self) -> (ops: Vec<DisplayOp>)
        ensures
            final(self)@.wf(),
            final(self)@ == old(self)@.after_new_line(),
            ops@ == old(self)@.new_line_ops(),
    {
        proof {
            use_type_invariant(&*self);
        }
        let mut ops: Vec<DisplayOp> = Vec::new();
        if self.row_position >= BUFFER_HEIGHT - 1 {
            let mut row: usize = 1;
            while row < BUFFER_HEIGHT
                invariant
                    1 <= row <= BUFFER_HEIGHT,
                    ops@ == scroll_ops(self@.blank()).take((row - 1) * BUFFER_WIDTH),
                decreases BUFFER_HEIGHT - row,
            {
                let mut col: usize = 0;
                while col < BUFFER_WIDTH
                    invariant
                        1 <= row < BUFFER_HEIGHT,
                        col <= BUFFER_WIDTH,
                        ops@ == scroll_ops(self@.blank()).take((row - 1) * BUFFER_WIDTH + col),
                    decreases BUFFER_WIDTH - col,
                {
                    proof {
                        let all = scroll_ops(self@.blank());
                        let i = (row - 1) * BUFFER_WIDTH + col;
                        assert(all.take(i + 1) =~= all.take(i).push(all[i]));
                        assert(i / (BUFFER_WIDTH as int) == row - 1);
                        assert(i % (BUFFER_WIDTH as int) == col);
                    }
                    ops.push(DisplayOp::CopyCharacter { col, from_row: row, to_row: row - 1 });
                    col = col + 1;
                }
                row = row + 1;
            }
            let mut blanks = self.clear_row(BUFFER_HEIGHT - 1);
            ops.append(&mut blanks);
            proof {
                let all = scroll_ops(self@.blank());
                assert(ops@ =~= all);
            }
            self.row_position = BUFFER_HEIGHT - 1;
        } else {
            self.row_position = self.row_position + 1;
        }
        self.column_position = 0;
        let mut cursor = cursor_steps(self.row_position, self.column_position);
        ops.append(&mut cursor);
        ops
    }

    /// Takes back the character before the cursor, if the cursor is not at
    /// the left of its row.
    pub fn backspace(&mut self) -> (ops: Vec<DisplayOp>)
        ensures
            final(self)@.wf(),
            final(self)@ == old(self)@.after_backspace(),
            ops@ == old(self)@.backspace_ops(),
    {
        proof {
            use_type_invariant(&*self);
        }
        let mut ops: Vec<DisplayOp> = Vec::new();
        if self.column_position > 0 {
            self.column_position = self.column_position - 1;
            ops.push(
                DisplayOp::WriteCharacter {
                    col: self.column_position,
                    row: self.row_position,
                    character: ScreenCharacter {
                        character: 0x20,
                        foreground: self.foreground,
                        background: self.background,
                    },
                },
            );
            let mut cursor = cursor_steps(self.row_position, self.column_position);
            ops.append(&mut cursor);
            proof {
                assert(ops@ =~= old(self)@.backspace_ops());
            }
        }
        ops
    }

    /// The steps that fill row `row` with blanks.
    fn clear_row(&self, row: usize) -> (ops: Vec<DisplayOp>)
        ensures
            ops@ == row_ops(row, self@.blank()),
    {
        let blank = ScreenCharacter {
            character: 0x20,
            foreground: self.foreground,
            background: self.background,
        };
        let mut ops: Vec<DisplayOp> = Vec::new();
        let mut col: usize = 0;
        while col < BUFFER_WIDTH
            invariant
                col <= BUFFER_WIDTH,
                blank == self@.blank(),
                ops@ == row_ops(row, blank).take(col as int),
            decreases BUFFER_WIDTH - col,
        {
            proof {
                let all = row_ops(row, blank);
                assert(all.take(col + 1) =~= all.take(col as int).push(all[col as int]));
            }
            ops.push(DisplayOp::WriteCharacter { col, row, character: blank });
            col = col + 1;
        }
        proof {
            assert(ops@ =~= row_ops(row, blank));
        }
        ops
    }

    /// Clears the screen and puts the cursor into the corner.
    pub fn clear_buffer(&mut self) -> (ops: Vec<DisplayOp>)
        ensures
            final(self)@ == (TextState { column: 0, row: 0, ..old(self)@ }),
            ops@ == seq![DisplayOp::ClearText] + cursor_ops(0, 0),
    {
        proof {
            use_type_invariant(&*self);
        }
        let mut ops: Vec<DisplayOp> = Vec::new();
        ops.push(DisplayOp::ClearText);
        self.column_position = 0;
        self.row_position = 0;
        let mut cursor = cursor_steps(self.row_position, self.column_position);
        ops.append(&mut cursor);
        proof {
            assert(ops@ =~= seq![DisplayOp::ClearText] + cursor_ops(0, 0));
        }
        ops
    }

    /// Writes the bytes of `s`, each as it can be shown: the printable
    /// bytes and the line feed as they are, a mark for any other.
    pub fn write_string(&mut self, s: &str) -> (ops: Vec<DisplayOp>)
        ensures
            final(self)@.wf(),
            final(self)@ == old(self)@.after_bytes(s.spec_bytes()),
            ops@ == old(self)@.bytes_ops(s.spec_bytes()),
    {
        proof {
            use_type_invariant(&*self);
        }
        let bytes = s.as_bytes();
        let mut ops: Vec<DisplayOp> = Vec::new();
        let mut i: usize = 0;
        proof {
            assert(bytes@.take(0) =~= Seq::<u8>::empty());
        }
        while i < bytes.len()
            invariant
                i <= bytes@.len(),
                self@.wf(),
                self@ == old(self)@.after_bytes(bytes@.take(i as int)),
                ops@ == old(self)@.bytes_ops(bytes@.take(i as int)),
            decreases bytes@.len() - i,
        {
            let byte = bytes[i];
            proof {
                assert(bytes@.take(i + 1).drop_last() =~= bytes@.take(i as int));
                assert(bytes@.take(i + 1).last() == byte);
            }
            let mut more = if (0x20 <= byte && byte <= 0x7e) || byte == 0x0a {
                self.write_byte(byte)
            } else {
                self.write_byte(UNPRINTABLE)
            };
            ops.append(&mut more);
            i = i + 1;
        }
        proof {
            assert(bytes@.take(bytes@.len() as int) =~= bytes@);
        }
        ops
    }

    /// Puts the cursor at `row` and `col`, if that is on the screen. The
    /// hardware cursor stays.
    pub fn set_cursor_position(&mut self, row: usize, col: usize)
        ensures
            final(self)@ == old(self)@.with_cursor(row, col),
    {
        proof {
            use_type_invariant(&*self);
        }
        if row < BUFFER_HEIGHT && col < BUFFER_WIDTH {
            self.row_position = row;
            self.column_position = col;
        }
    }

    /// Puts the cursor at `row` and `col`, if that is on the screen, and
    /// the hardware cursor there in any case.
    pub fn move_cursor(&mut self, row: usize, col: usize) -> (ops: Vec<DisplayOp>)
        requires
            row * BUFFER_WIDTH + col <= usize::MAX,
        ensures
            final(self)@ == old(self)@.with_cursor(row, col),
            ops@ == cursor_ops(row as int, col as int),
    {
        self.set_cursor_position(row, col);
        cursor_steps(row, col)
    }

    /// Where the cursor is: row, then column.
    pub fn get_cursor_position(&self) -> (place: (usize, usize))
        ensures
            place == (self@.row, self@.column),
            self@.wf(),
    {
        proof {
            use_type_invariant(self);
        }
        (self.row_position, self.column_position)
    }

    /// The column of the cursor.
    pub fn column_position(&self) -> (column: usize)
        ensures
            column == self@.column,
    {
        self.column_position
    }

    /// Sets the colors in which text is written from now on.
    pub fn set_color(&mut self, foreground: Color, background: Color)
        ensures
            final(self)@ == (TextState { foreground, background, ..old(self)@ }),
    {
        proof {
            use_type_invariant(&*self);
        }
        self.foreground = foreground;
        self.background = background;
    }
}

impl TextMode {
    /// Where the hardware cursor is, row then column, from the two bytes
    /// that the controller holds for it in its registers `CURSOR_LOW` and
    /// `CURSOR_HIGH`.
    pub fn get_hardware_cursor_position(low: u8, high: u8) -> (place: (usize, usize))
        ensures
            place.0 == (high * 256 + low) / (BUFFER_WIDTH as int),
            place.1 == (high * 256 + low) % (BUFFER_WIDTH as int),
    {
        let pos_low = low as u16;
        let pos_high = high as u16;
        let pos = (pos_high << 8) | pos_low;
        assert(pos == pos_high * 256 + pos_low) by (bit_vector)
            requires
                pos == (pos_high << 8) | pos_low,
                pos_high < 256,
                pos_low < 256,
        ;
        let row = (pos as usize) / BUFFER_WIDTH;
        let col = (pos as usize) % BUFFER_WIDTH;
        (row, col)
    }
}

/// The largest coordinate between which lines are drawn.
pub const MAX_COORDINATE: usize = 0x0fff_ffff;

/// How far a line drawing has come.
pub struct LineWalk {
    pub x: int,
    pub y: int,
    /// The balance between the steps in the two directions.
    pub err: int,
}

/// A line to be drawn: where it ends, how far that is in each direction,
/// and which way.
pub struct LineGoal {
    pub x: int,
    pub y: int,
    pub dx: int,
    pub dy: int,
    pub sx: int,
    pub sy: int,
}

impl LineGoal {
    /// The goal of the line from `start` to `end`.
    pub open spec fn new(start: (usize, usize), end: (usize, usize)) -> LineGoal {
        LineGoal {
            x: end.0 as int,
            y: end.1 as int,
            dx: if start.0 < end.0 {
                end.0 - start.0
            } else {
                start.0 - end.0
            },
            dy: if start.1 < end.1 {
                end.1 - start.1
            } else {
                start.1 - end.1
            },
            sx: if start.0 < end.0 {
                1
            } else {
                -1
            },
            sy: if start.1 < end.1 {
                1
            } else {
                -1
            },
        }
    }

    /// One step of the drawing: a step in `x` where the balance allows it,
    /// and a step in `y` where it allows that.
    pub open spec fn step(self, at: LineWalk) -> LineWalk {
        let e2 = 2 * at.err;
        let first = if e2 > -self.dy {
            LineWalk { x: at.x + self.sx, err: at.err - self.dy, ..at }
        } else {
            at
        };
        if e2 < self.dx {
            LineWalk { y: first.y + self.sy, err: first.err + self.dx, ..first }
        } else {
            first
        }
    }

    /// The pixels from `at` on, up to the end of the line or for `left`
    /// steps.
    pub open spec fn pixels_from(self, at: LineWalk, left: nat) -> Seq<(int, int)>
        decreases left,
    {
        if (at.x == self.x && at.y == self.y) || left == 0 {
            seq![(at.x, at.y)]
        } else {
            seq![(at.x, at.y)] + self.pixels_from(self.step(at), (left - 1) as nat)
        }
    }
}

/// The pixels of the line from `start` to `end`, as Bresenham's algorithm
/// picks them: from `start`, each next to the one before, to `end`.
pub open spec fn line_pixels(start: (usize, usize), end: (usize, usize)) -> Seq<(int, int)> {
    let goal = LineGoal::new(start, end);
    goal.pixels_from(
        LineWalk { x: start.0 as int, y: start.1 as int, err: goal.dx - goal.dy },
        (goal.dx + goal.dy) as nat,
    )
}

/// The steps that draw the line from `start` to `end` in `color`, pixel
/// by pixel.
pub open spec fn line_ops(start: (usize, usize), end: (usize, usize), color: Color) -> Seq<
    DisplayOp,
> {
    line_pixels(start, end).map_values(
        |pixel: (int, int)| DisplayOp::SetPixel { x: pixel.0 as usize, y: pixel.1 as usize, color },
    )
}

/// The places in `points`, as pairs of integers.
pub open spec fn places_of(points: Seq<(usize, usize)>) -> Seq<(int, int)> {
    points.map_values(|point: (usize, usize)| (point.0 as int, point.1 as int))
}

/// Two pixels touch: they differ by one at most in each direction, and
/// are not the same.
pub open spec fn touching(a: (usize, usize), b: (usize, usize)) -> bool {
    &&& a != b
    &&& a.0 - b.0 <= 1
    &&& b.0 - a.0 <= 1
    &&& a.1 - b.1 <= 1
    &&& b.1 - a.1 <= 1
}

/// What holds of the balance while a line is drawn, `kx` steps in `x` and
/// `ky` steps in `y` after its start.
spec fn on_course(goal: LineGoal, err: int, kx: int, ky: int) -> bool {
    &&& 0 <= kx <= goal.dx
    &&& 0 <= ky <= goal.dy
    &&& err == goal.dx - goal.dy - kx * goal.dy + ky * goal.dx
    &&& -3 * goal.dy < 2 * err < 3 * goal.dx
}

/// While a line is not at its end, a step takes it nearer: in `x` only
/// where `x` has not arrived, in `y` only where `y` has not, and in one
/// of them at least.
proof fn lemma_line_step(dx: int, dy: int, err: int, kx: int, ky: int)
    requires
        0 <= kx <= dx,
        0 <= ky <= dy,
        kx < dx || ky < dy,
        err == dx - dy - kx * dy + ky * dx,
        -3 * dy < 2 * err < 3 * dx,
    ensures
        2 * err > -dy ==> kx < dx,
        2 * err < dx ==> ky < dy,
        2 * err > -dy || 2 * err < dx,
        ({
            let e1 = if 2 * err > -dy {
                err - dy
            } else {
                err
            };
            let e2 = if 2 * err < dx {
                e1 + dx
            } else {
                e1
            };
            let k1 = if 2 * err > -dy {
                kx + 1
            } else {
                kx
            };
            let k2 = if 2 * err < dx {
                ky + 1
            } else {
                ky
            };
            e2 == dx - dy - k1 * dy + k2 * dx && -3 * dy < 2 * e2 < 3 * dx
        }),
{
    assert((kx + 1) * dy == kx * dy + dy) by (nonlinear_arith);
    assert((ky + 1) * dx == ky * dx + dx) by (nonlinear_arith);
    if kx == dx {
        // x has arrived: the balance is too low for another step in x.
        assert(err == dx - dy - dx * dy + ky * dx);
        assert(ky * dx <= (dy - 1) * dx) by (nonlinear_arith)
            requires
                ky <= dy - 1,
                dx >= 0,
        ;
        assert((dy - 1) * dx == dx * dy - dx) by (nonlinear_arith);
    }
    if ky == dy {
        // y has arrived: the balance is too high for another step in y.
        assert(err == dx - dy - kx * dy + dy * dx);
        assert(kx * dy <= (dx - 1) * dy) by (nonlinear_arith)
            requires
                kx <= dx - 1,
                dy >= 0,
        ;
        assert((dx - 1) * dy == dy * dx - dy) by (nonlinear_arith);
    }
}

/// The pixels of the line from `start` to `end`.
pub fn line_points(start: (usize, usize), end: (usize, usize)) -> (points: Vec<(usize, usize)>)
    requires
        start.0 <= MAX_COORDINATE,
        start.1 <= MAX_COORDINATE,
        end.0 <= MAX_COORDINATE,
        end.1 <= MAX_COORDINATE,
    ensures
        places_of(points@) == line_pixels(start, end),
        points@.len() >= 1,
        points@[0] == start,
        points@.last() == end,
        forall|i: int| 0 <= i < points@.len() - 1 ==> touching(points@[i], #[trigger] points@[i + 1]),
{
    let ghost goal = LineGoal::new(start, end);
    let dx: isize = if start.0 < end.0 {
        (end.0 - start.0) as isize
    } else {
        (start.0 - end.0) as isize
    };
    let dy: isize = if start.1 < end.1 {
        (end.1 - start.1) as isize
    } else {
        (start.1 - end.1) as isize
    };
    let sx: isize = if start.0 < end.0 {
        1
    } else {
        -1
    };
    let sy: isize = if start.1 < end.1 {
        1
    } else {
        -1
    };
    let mut err: isize = dx - dy;
    let mut x: isize = start.0 as isize;
    let mut y: isize = start.1 as isize;
    let mut points: Vec<(usize, usize)> = Vec::new();
    points.push(start);
    let ghost mut kx: int = 0;
    let ghost mut ky: int = 0;
    let ghost mut left: nat = (goal.dx + goal.dy) as nat;
    proof {
        assert(places_of(points@) =~= seq![(x as int, y as int)]);
        assert(0 * goal.dy == 0 && 0 * goal.dx == 0) by (nonlinear_arith);
        let first = LineWalk { x: x as int, y: y as int, err: err as int };
        let left = (goal.dx + goal.dy) as nat;
        if !((first.x == goal.x && first.y == goal.y) || left == 0) {
            assert(places_of(points@.drop_last()) =~= Seq::<(int, int)>::empty());
        }
    }
    while !(x == end.0 as isize && y == end.1 as isize)
        invariant
            goal == LineGoal::new(start, end),
            start.0 <= MAX_COORDINATE,
            start.1 <= MAX_COORDINATE,
            end.0 <= MAX_COORDINATE,
            end.1 <= MAX_COORDINATE,
            dx == goal.dx,
            dy == goal.dy,
            sx == goal.sx,
            sy == goal.sy,
            x == start.0 + sx * kx,
            y == start.1 + sy * ky,
            goal.dx == 0 ==> kx == 0,
            goal.dy == 0 ==> ky == 0,
            on_course(goal, err as int, kx, ky) || (goal.dx == 0 && goal.dy == 0 && err == 0),
            points@.len() >= 1,
            points@[0] == start,
            points@.last() == (x as usize, y as usize),
            forall|i: int|
                0 <= i < points@.len() - 1 ==> touching(points@[i], #[trigger] points@[i + 1]),
            left >= goal.dx - kx + goal.dy - ky,
            line_pixels(start, end) == places_of(points@.drop_last()) + goal.pixels_from(
                LineWalk { x: x as int, y: y as int, err: err as int },
                left,
            ),
        decreases goal.dx - kx + goal.dy - ky,
    {
        let ghost before = LineWalk { x: x as int, y: y as int, err: err as int };
        let ghost done = points@;
        proof {
            assert(sx * kx == if sx == 1 {
                kx
            } else {
                -kx
            }) by (nonlinear_arith)
                requires
                    sx == 1 || sx == -1,
            ;
            assert(sy * ky == if sy == 1 {
                ky
            } else {
                -ky
            }) by (nonlinear_arith)
                requires
                    sy == 1 || sy == -1,
            ;
            assert(sx * (kx + 1) == sx * kx + sx) by (nonlinear_arith);
            assert(sy * (ky + 1) == sy * ky + sy) by (nonlinear_arith);
            assert(kx < goal.dx || ky < goal.dy);
            lemma_line_step(goal.dx, goal.dy, err as int, kx, ky);
        }
        let e2 = 2 * err;
        if e2 > -dy {
            err = err - dy;
            x = x + sx;
            proof {
                kx = kx + 1;
            }
        }
        if e2 < dx {
            err = err + dx;
            y = y + sy;
            proof {
                ky = ky + 1;
            }
        }
        points.push((x as usize, y as usize));
        proof {
            let after = LineWalk { x: x as int, y: y as int, err: err as int };
            assert(after == goal.step(before));
            left = (left - 1) as nat;
            assert(points@.drop_last() =~= done);
            assert(places_of(done) =~= places_of(done.drop_last()) + seq![(before.x, before.y)]);
            assert(places_of(done.drop_last()) + (seq![(before.x, before.y)] + goal.pixels_from(
                after,
                left,
            )) =~= places_of(done) + goal.pixels_from(after, left));
            assert forall|i: int| 0 <= i < points@.len() - 1 implies touching(
                points@[i],
                #[trigger] points@[i + 1],
            ) by {
                if i < done.len() - 1 {
                    assert(touching(done[i], done[i + 1]));
                }
            }
        }
    }
    proof {
        let at = LineWalk { x: x as int, y: y as int, err: err as int };
        assert(goal.pixels_from(at, left) =~= seq![(at.x, at.y)]);
        assert(places_of(points@) =~= places_of(points@.drop_last()) + seq![(at.x, at.y)]);
    }
    points
}

/// The width of the graphics screen, in pixels.
pub const SCREEN_WIDTH: usize = 640;

/// The width of a character in graphics mode, in pixels.
pub const GLYPH_WIDTH: usize = 8;

/// The height of a line of text in graphics mode, in pixels.
pub const LINE_HEIGHT: usize = 16;

/// The graphics mode as a mathematical value.
pub struct GraphicsState {
    pub foreground: Color,
    pub background: Color,
    /// Where the next character goes.
    pub cursor_x: usize,
    pub cursor_y: usize,
}

impl GraphicsState {
    /// After the character `c` has been written: a line feed puts the
    /// cursor at the left of the next line; any other character moves it
    /// by the width of a character, and to the next line where that
    /// reaches the right edge.
    pub open spec fn after_char(self, c: char) -> GraphicsState {
        if c == '\n' || self.cursor_x + GLYPH_WIDTH >= SCREEN_WIDTH {
            GraphicsState { cursor_x: 0, cursor_y: (self.cursor_y + LINE_HEIGHT) as usize, ..self }
        } else {
            GraphicsState { cursor_x: (self.cursor_x + GLYPH_WIDTH) as usize, ..self }
        }
    }

    /// The steps of writing `c`: none for a line feed, the drawing of the
    /// character at the cursor for any other.
    pub open spec fn char_ops(self, c: char) -> Seq<DisplayOp> {
        if c == '\n' {
            Seq::empty()
        } else {
            seq![
                DisplayOp::DrawCharacter {
                    x: self.cursor_x,
                    y: self.cursor_y,
                    character: c,
                    color: self.foreground,
                },
            ]
        }
    }

    /// After `text` has been written.
    pub open spec fn after_text(self, text: Seq<char>) -> GraphicsState
        decreases text.len(),
    {
        if text.len() == 0 {
            self
        } else {
            self.after_text(text.drop_last()).after_char(text.last())
        }
    }

    /// The steps of writing `text`.
    pub open spec fn text_ops(self, text: Seq<char>) -> Seq<DisplayOp>
        decreases text.len(),
    {
        if text.len() == 0 {
            Seq::empty()
        } else {
            self.text_ops(text.drop_last()) + self.after_text(text.drop_last()).char_ops(
                text.last(),
            )
        }
    }

    /// Whether `count` characters can be written without the cursor
    /// running out of the numbers.
    pub open spec fn has_room_for(self, count: nat) -> bool {
        self.cursor_x + GLYPH_WIDTH <= usize::MAX && self.cursor_y + LINE_HEIGHT * count
            <= usize::MAX
    }

    /// Writing a text uses up the room for its characters.
    pub proof fn lemma_room_after_text(self, text: Seq<char>, count: nat)
        requires
            self.has_room_for(count),
            text.len() <= count,
        ensures
            self.after_text(text).has_room_for((count - text.len()) as nat),
        decreases text.len(),
    {
        if text.len() > 0 {
            self.lemma_room_after_text(text.drop_last(), count);
            self.after_text(text.drop_last()).lemma_room_after_char(
                text.last(),
                (count - text.len() + 1) as nat,
            );
        }
    }

    /// Writing a character uses up the room for one.
    pub proof fn lemma_room_after_char(self, c: char, count: nat)
        requires
            self.has_room_for(count),
            count > 0,
        ensures
            self.after_char(c).has_room_for((count - 1) as nat),
            self.after_char(c).cursor_y <= self.cursor_y + LINE_HEIGHT,
    {
        assert(LINE_HEIGHT * count == LINE_HEIGHT * (count - 1) + LINE_HEIGHT) by (nonlinear_arith);
    }
}

/// The graphics mode of the display: the colors in which it writes, and
/// the place of the next character.
pub struct GraphicsMode {
    fg_color: Color,
    bg_color: Color,
    cursor_x: usize,
    cursor_y: usize,
}

impl View for GraphicsMode {
    type V = GraphicsState;

    closed spec fn view(&self) -> GraphicsState {
        GraphicsState {
            foreground: self.fg_color,
            background: self.bg_color,
            cursor_x: self.cursor_x,
            cursor_y: self.cursor_y,
        }
    }
}

impl GraphicsMode {
    /// The graphics mode, white on black, with the cursor in the corner;
    /// the steps switch the display to it and make the screen black.
    pub fn new() -> (made: (GraphicsMode, Vec<DisplayOp>))
        ensures
            made.0@ == (GraphicsState {
                foreground: Color::White,
                background: Color::Black,
                cursor_x: 0,
                cursor_y: 0,
            }),
            made.1@ == seq![
                DisplayOp::SetGraphicsMode,
                DisplayOp::ClearGraphics { color: Color::Black },
            ],
    {
        let mut ops: Vec<DisplayOp> = Vec::new();
        ops.push(DisplayOp::SetGraphicsMode);
        ops.push(DisplayOp::ClearGraphics { color: Color::Black });
        proof {
            assert(ops@ =~= seq![
                DisplayOp::SetGraphicsMode,
                DisplayOp::ClearGraphics { color: Color::Black },
            ]);
        }
        (
            GraphicsMode {
                fg_color: Color::White,
                bg_color: Color::Black,
                cursor_x: 0,
                cursor_y: 0,
            },
            ops,
        )
    }

    /// The step that fills the screen with `color`.
    pub fn clear_screen(&self, color: Color) -> (op: DisplayOp)
        ensures
            op == (DisplayOp::ClearGraphics { color }),
    {
        DisplayOp::ClearGraphics { color }
    }

    /// The step that draws `character` in `color` with its corner at `x`
    /// and `y`.
    pub fn draw_character(&mut self, x: usize, y: usize, character: char, color: Color) -> (op:
        DisplayOp)
        ensures
            final(self)@ == old(self)@,
            op == (DisplayOp::DrawCharacter { x, y, character, color }),
    {
        DisplayOp::DrawCharacter { x, y, character, color }
    }

    /// The steps that draw the line from `start` to `end` in `color`: one
    /// pixel after the other, as `line_pixels` has them.
    pub fn draw_line(&self, start: (usize, usize), end: (usize, usize), color: Color) -> (ops: Vec<
        DisplayOp,
    >)
        requires
            start.0 <= MAX_COORDINATE,
            start.1 <= MAX_COORDINATE,
            end.0 <= MAX_COORDINATE,
            end.1 <= MAX_COORDINATE,
        ensures
            ops@ == line_ops(start, end, color),
    {
        let points = line_points(start, end);
        let mut ops: Vec<DisplayOp> = Vec::new();
        let mut i: usize = 0;
        while i < points.len()
            invariant
                i <= points@.len(),
                places_of(points@) == line_pixels(start, end),
                ops@ == line_ops(start, end, color).take(i as int),
            decreases points@.len() - i,
        {
            proof {
                let all = line_ops(start, end, color);
                assert(places_of(points@)[i as int] == (
                    points@[i as int].0 as int,
                    points@[i as int].1 as int,
                ));
                assert(all.take(i + 1) =~= all.take(i as int).push(all[i as int]));
            }
            ops.push(DisplayOp::SetPixel { x: points[i].0, y: points[i].1, color });
            i = i + 1;
        }
        proof {
            let all = line_ops(start, end, color);
            assert(all.take(all.len() as int) =~= all);
        }
        ops
    }

    /// The step that gives the pixel at `x` and `y` the color `color`.
    pub fn set_pixel(&self, x: usize, y: usize, color: Color) -> (op: DisplayOp)
        ensures
            op == (DisplayOp::SetPixel { x, y, color }),
    {
        DisplayOp::SetPixel { x, y, color }
    }

    /// Writes one character at the cursor.
    fn write_char(&mut self, c: char) -> (ops: Vec<DisplayOp>)
        requires
            old(self)@.has_room_for(1),
        ensures
            final(self)@ == old(self)@.after_char(c),
            ops@ == old(self)@.char_ops(c),
    {
        let mut ops: Vec<DisplayOp> = Vec::new();
        if c == '\n' {
            self.cursor_x = 0;
            self.cursor_y = self.cursor_y + LINE_HEIGHT;
        } else {
            let op = self.draw_character(self.cursor_x, self.cursor_y, c, self.fg_color);
            ops.push(op);
            self.cursor_x = self.cursor_x + GLYPH_WIDTH;
            if self.cursor_x >= SCREEN_WIDTH {
                self.cursor_x = 0;
                self.cursor_y = self.cursor_y + LINE_HEIGHT;
            }
        }
        proof {
            assert(ops@ =~= old(self)@.char_ops(c));
        }
        ops
    }

    /// Writes `s` at the cursor, character by character.
    pub fn write_string(&mut self, s: &str) -> (ops: Vec<DisplayOp>)
        requires
            old(self)@.has_room_for(s@.len()),
        ensures
            final(self)@ == old(self)@.after_text(s@),
            ops@ == old(self)@.text_ops(s@),
    {
        let chars = chars_of(s);
        let mut ops: Vec<DisplayOp> = Vec::new();
        let mut i: usize = 0;
        proof {
            assert(chars@.take(0) =~= Seq::<char>::empty());
        }
        while i < chars.len()
            invariant
                i <= chars@.len(),
                chars@ == s@,
                self@.has_room_for((chars@.len() - i) as nat),
                self@ == old(self)@.after_text(chars@.take(i as int)),
                ops@ == old(self)@.text_ops(chars@.take(i as int)),
            decreases chars@.len() - i,
        {
            let c = chars[i];
            proof {
                assert(chars@.take(i + 1).drop_last() =~= chars@.take(i as int));
                assert(chars@.take(i + 1).last() == c);
                self@.lemma_room_after_char(c, (chars@.len() - i) as nat);
                assert(LINE_HEIGHT * 1 <= LINE_HEIGHT * (chars@.len() - i)) by (nonlinear_arith)
                    requires
                        chars@.len() - i >= 1,
                ;
            }
            let mut more = self.write_char(c);
            ops.append(&mut more);
            i = i + 1;
        }
        proof {
            assert(chars@.take(chars@.len() as int) =~= chars@);
        }
        ops
    }

    /// Sets the colors from now on.
    pub fn set_color(&mut self, foreground: Color, background: Color)
        ensures
            final(self)@ == (GraphicsState { foreground, background, ..old(self)@ }),
    {
        self.fg_color = foreground;
        self.bg_color = background;
    }

    /// Puts the cursor at the pixel `x`, `y`.
    pub fn set_cursor_position(&mut self, x: usize, y: usize)
        ensures
            final(self)@ == (GraphicsState { cursor_x: x, cursor_y: y, ..old(self)@ }),
    {
        self.cursor_x = x;
        self.cursor_y = y;
    }
}

/// The display in one of its two modes.
pub enum DisplayMode {
    Text(TextMode),
    Graphics(GraphicsMode),
}

/// A `DisplayMode` as a mathematical value.
pub enum DisplayState {
    Text(TextState),
    Graphics(GraphicsState),
}

impl View for DisplayMode {
    type V = DisplayState;

    open spec fn view(&self) -> DisplayState {
        match self {
            DisplayMode::Text(text) => DisplayState::Text(text@),
            DisplayMode::Graphics(gfx) => DisplayState::Graphics(gfx@),
        }
    }
}

/// The character that the graphics mode draws for `byte`: the byte as a
/// character where it is one by itself, a question mark where it is not.
pub open spec fn glyph_for(byte: u8) -> char {
    if byte < 0x80 {
        byte as char
    } else {
        '?'
    }
}

impl DisplayState {
    /// Whether `count` characters can be written.
    pub open spec fn has_room_for(self, count: nat) -> bool {
        self matches DisplayState::Graphics(gfx) ==> gfx.has_room_for(count)
    }

    /// Writing a text uses up the room for its characters.
    pub proof fn lemma_room_after_string(self, text: Seq<char>, count: nat)
        requires
            self.has_room_for(count),
            text.len() <= count,
        ensures
            self.after_string(text).has_room_for((count - text.len()) as nat),
    {
        if let DisplayState::Graphics(gfx) = self {
            gfx.lemma_room_after_text(text, count);
        }
    }

    /// After `byte` has been written.
    pub open spec fn after_byte(self, byte: u8) -> DisplayState {
        match self {
            DisplayState::Text(text) => DisplayState::Text(text.after_byte(byte)),
            DisplayState::Graphics(gfx) => DisplayState::Graphics(gfx.after_char(glyph_for(byte))),
        }
    }

    /// The steps of writing `byte`.
    pub open spec fn byte_ops(self, byte: u8) -> Seq<DisplayOp> {
        match self {
            DisplayState::Text(text) => text.byte_ops(byte),
            DisplayState::Graphics(gfx) => gfx.char_ops(glyph_for(byte)),
        }
    }

    /// After `text` has been written: in text mode byte by byte, in
    /// graphics mode character by character.
    pub open spec fn after_string(self, text: Seq<char>) -> DisplayState {
        match self {
            DisplayState::Text(state) => DisplayState::Text(
                state.after_bytes(vstd::utf8::encode_utf8(text)),
            ),
            DisplayState::Graphics(gfx) => DisplayState::Graphics(gfx.after_text(text)),
        }
    }

    /// The steps of writing `text`.
    pub open spec fn string_ops(self, text: Seq<char>) -> Seq<DisplayOp> {
        match self {
            DisplayState::Text(state) => state.bytes_ops(vstd::utf8::encode_utf8(text)),
            DisplayState::Graphics(gfx) => gfx.text_ops(text),
        }
    }

    /// After the screen has been cleared: in text mode the cursor is in the
    /// corner; in graphics mode it stays.
    pub open spec fn after_clear(self) -> DisplayState {
        match self {
            DisplayState::Text(text) => DisplayState::Text(TextState { column: 0, row: 0, ..text }),
            DisplayState::Graphics(gfx) => self,
        }
    }

    /// The steps of clearing the screen: in graphics mode it is filled with
    /// the background color.
    pub open spec fn clear_ops(self) -> Seq<DisplayOp> {
        match self {
            DisplayState::Text(text) => seq![DisplayOp::ClearText] + cursor_ops(0, 0),
            DisplayState::Graphics(gfx) => seq![DisplayOp::ClearGraphics { color: gfx.background }],
        }
    }

    /// After a backspace: in graphics mode the cursor goes back by the
    /// width of a character, if it is that far from the left.
    pub open spec fn after_backspace(self) -> DisplayState {
        match self {
            DisplayState::Text(text) => DisplayState::Text(text.after_backspace()),
            DisplayState::Graphics(gfx) => if gfx.cursor_x >= GLYPH_WIDTH {
                DisplayState::Graphics(
                    GraphicsState { cursor_x: (gfx.cursor_x - GLYPH_WIDTH) as usize, ..gfx },
                )
            } else {
                self
            },
        }
    }

    /// The steps of a backspace: in graphics mode a blank in the
    /// background color is drawn over the character taken back.
    pub open spec fn backspace_ops(self) -> Seq<DisplayOp> {
        match self {
            DisplayState::Text(text) => text.backspace_ops(),
            DisplayState::Graphics(gfx) => if gfx.cursor_x >= GLYPH_WIDTH {
                seq![
                    DisplayOp::DrawCharacter {
                        x: (gfx.cursor_x - GLYPH_WIDTH) as usize,
                        y: gfx.cursor_y,
                        character: ' ',
                        color: gfx.background,
                    },
                ]
            } else {
                Seq::empty()
            },
        }
    }

    /// With other colors.
    pub open spec fn with_color(self, foreground: Color, background: Color) -> DisplayState {
        match self {
            DisplayState::Text(text) => DisplayState::Text(
                TextState { foreground, background, ..text },
            ),
            DisplayState::Graphics(gfx) => DisplayState::Graphics(
                GraphicsState { foreground, background, ..gfx },
            ),
        }
    }

    /// The column of the cursor, counted in characters.
    pub open spec fn column(self) -> int {
        match self {
            DisplayState::Text(text) => text.column as int,
            DisplayState::Graphics(gfx) => gfx.cursor_x as int / GLYPH_WIDTH as int,
        }
    }

    /// With the cursor in column `col`: in text mode only where the column
    /// is on the screen.
    pub open spec fn with_column(self, col: usize) -> DisplayState {
        match self {
            DisplayState::Text(text) => if col < BUFFER_WIDTH {
                DisplayState::Text(TextState { column: col, ..text })
            } else {
                self
            },
            DisplayState::Graphics(gfx) => DisplayState::Graphics(
                GraphicsState { cursor_x: (col * GLYPH_WIDTH) as usize, ..gfx },
            ),
        }
    }

    /// The steps of putting the cursor in column `col`: in text mode the
    /// hardware cursor goes there, where the column is on the screen.
    pub open spec fn column_ops(self, col: usize) -> Seq<DisplayOp> {
        match self {
            DisplayState::Text(text) => if col < BUFFER_WIDTH {
                cursor_ops(text.row as int, col as int)
            } else {
                Seq::empty()
            },
            DisplayState::Graphics(gfx) => Seq::empty(),
        }
    }

    /// With the cursor at `row` and `col`, counted in characters.
    pub open spec fn with_cursor(self, row: usize, col: usize) -> DisplayState {
        match self {
            DisplayState::Text(text) => DisplayState::Text(text.with_cursor(row, col)),
            DisplayState::Graphics(gfx) => DisplayState::Graphics(
                GraphicsState {
                    cursor_x: (col * GLYPH_WIDTH) as usize,
                    cursor_y: (row * LINE_HEIGHT) as usize,
                    ..gfx
                },
            ),
        }
    }

    /// The steps of putting the cursor at `row` and `col`.
    pub open spec fn cursor_move_ops(self, row: usize, col: usize) -> Seq<DisplayOp> {
        match self {
            DisplayState::Text(text) => cursor_ops(row as int, col as int),
            DisplayState::Graphics(gfx) => Seq::empty(),
        }
    }
}

/// What everything that is written goes through: the display, in the mode
/// that it is in.
pub struct Writer {
    mode: DisplayMode,
}

impl View for Writer {
    type V = DisplayState;

    closed spec fn view(&self) -> DisplayState {
        self.mode@
    }
}

impl Writer {
    /// A writer in text mode, with the steps that bring the display there.
    pub fn new_text() -> (made: (Writer, Vec<DisplayOp>))
        ensures
            made.0@ == DisplayState::Text(
                TextState {
                    foreground: Color::White,
                    background: Color::Black,
                    column: 0,
                    row: 0,
                },
            ),
            made.1@ == seq![DisplayOp::SetTextMode, DisplayOp::ClearText],
    {
        let (text, ops) = TextMode::new();
        (Writer { mode: DisplayMode::Text(text) }, ops)
    }

    /// A writer in graphics mode, with the steps that bring the display
    /// there.
    pub fn new_graphics() -> (made: (Writer, Vec<DisplayOp>))
        ensures
            made.0@ == DisplayState::Graphics(
                GraphicsState {
                    foreground: Color::White,
                    background: Color::Black,
                    cursor_x: 0,
                    cursor_y: 0,
                },
            ),
            made.1@ == seq![
                DisplayOp::SetGraphicsMode,
                DisplayOp::ClearGraphics { color: Color::Black },
            ],
    {
        let (gfx, ops) = GraphicsMode::new();
        (Writer { mode: DisplayMode::Graphics(gfx) }, ops)
    }

    /// Goes over to a fresh text mode.
    pub fn switch_to_text(&mut self) -> (ops: Vec<DisplayOp>)
        ensures
            final(self)@ == DisplayState::Text(
                TextState {
                    foreground: Color::White,
                    background: Color::Black,
                    column: 0,
                    row: 0,
                },
            ),
            ops@ == seq![DisplayOp::SetTextMode, DisplayOp::ClearText],
    {
        let (text, ops) = TextMode::new();
        self.mode = DisplayMode::Text(text);
        ops
    }

    /// Goes over to a fresh graphics mode.
    pub fn switch_to_graphics(&mut self) -> (ops: Vec<DisplayOp>)
        ensures
            final(self)@ == DisplayState::Graphics(
                GraphicsState {
                    foreground: Color::White,
                    background: Color::Black,
                    cursor_x: 0,
                    cursor_y: 0,
                },
            ),
            ops@ == seq![
                DisplayOp::SetGraphicsMode,
                DisplayOp::ClearGraphics { color: Color::Black },
            ],
    {
        let (gfx, ops) = GraphicsMode::new();
        self.mode = DisplayMode::Graphics(gfx);
        ops
    }

    /// Writes one byte.
    pub fn write_byte(&mut self, byte: u8) -> (ops: Vec<DisplayOp>)
        requires
            old(self)@.has_room_for(1),
        ensures
            final(self)@ == old(self)@.after_byte(byte),
            ops@ == old(self)@.byte_ops(byte),
    {
        match &mut self.mode {
            DisplayMode::Text(text) => text.write_byte(byte),
            DisplayMode::Graphics(gfx) => {
                let c = if byte < 0x80 {
                    byte as char
                } else {
                    '?'
                };
                gfx.write_char(c)
            },
        }
    }

    /// Writes a string.
    pub fn write_string(&mut self, s: &str) -> (ops: Vec<DisplayOp>)
        requires
            old(self)@.has_room_for(s@.len()),
        ensures
            final(self)@ == old(self)@.after_string(s@),
            ops@ == old(self)@.string_ops(s@),
    {
        match &mut self.mode {
            DisplayMode::Text(text) => text.write_string(s),
            DisplayMode::Graphics(gfx) => gfx.write_string(s),
        }
    }

    /// Clears the screen.
    pub fn clear_buffer(&mut self) -> (ops: Vec<DisplayOp>)
        ensures
            final(self)@ == old(self)@.after_clear(),
            ops@ == old(self)@.clear_ops(),
    {
        match &mut self.mode {
            DisplayMode::Text(text) => text.clear_buffer(),
            DisplayMode::Graphics(gfx) => {
                let mut ops: Vec<DisplayOp> = Vec::new();
                ops.push(gfx.clear_screen(gfx.bg_color));
                proof {
                    assert(ops@ =~= seq![DisplayOp::ClearGraphics { color: gfx@.background }]);
                }
                ops
            },
        }
    }

    /// Takes back the character before the cursor.
    pub fn backspace(&mut self) -> (ops: Vec<DisplayOp>)
        ensures
            final(self)@ == old(self)@.after_backspace(),
            ops@ == old(self)@.backspace_ops(),
    {
        match &mut self.mode {
            DisplayMode::Text(text) => text.backspace(),
            DisplayMode::Graphics(gfx) => {
                let mut ops: Vec<DisplayOp> = Vec::new();
                if gfx.cursor_x >= GLYPH_WIDTH {
                    gfx.cursor_x = gfx.cursor_x - GLYPH_WIDTH;
                    let op = gfx.draw_character(gfx.cursor_x, gfx.cursor_y, ' ', gfx.bg_color);
                    ops.push(op);
                }
                proof {
                    assert(ops@ =~= old(self)@.backspace_ops());
                }
                ops
            },
        }
    }

    /// Sets the colors from now on.
    pub fn set_color(&mut self, foreground: Color, background: Color)
        ensures
            final(self)@ == old(self)@.with_color(foreground, background),
    {
        match &mut self.mode {
            DisplayMode::Text(text) => text.set_color(foreground, background),
            DisplayMode::Graphics(gfx) => gfx.set_color(foreground, background),
        }
    }

    /// The column of the cursor, counted in characters.
    pub fn column_position(&self) -> (column: usize)
        ensures
            column == self@.column(),
    {
        match &self.mode {
            DisplayMode::Text(text) => text.column_position,
            DisplayMode::Graphics(gfx) => gfx.cursor_x / GLYPH_WIDTH,
        }
    }

    /// Puts the cursor into column `col`.
    pub fn set_column_position(&mut self, col: usize) -> (ops: Vec<DisplayOp>)
        requires
            col * GLYPH_WIDTH <= usize::MAX,
        ensures
            final(self)@ == old(self)@.with_column(col),
            ops@ == old(self)@.column_ops(col),
    {
        match &mut self.mode {
            DisplayMode::Text(text) => {
                proof {
                    use_type_invariant(&*text);
                }
                if col < BUFFER_WIDTH {
                    text.column_position = col;
                    cursor_steps(text.row_position, col)
                } else {
                    Vec::new()
                }
            },
            DisplayMode::Graphics(gfx) => {
                gfx.cursor_x = col * GLYPH_WIDTH;
                Vec::new()
            },
        }
    }

    /// Puts the cursor at `row` and `col`, counted in characters.
    pub fn move_cursor(&mut self, row: usize, col: usize) -> (ops: Vec<DisplayOp>)
        requires
            row * BUFFER_WIDTH + col <= usize::MAX,
            col * GLYPH_WIDTH <= usize::MAX,
            row * LINE_HEIGHT <= usize::MAX,
        ensures
            final(self)@ == old(self)@.with_cursor(row, col),
            ops@ == old(self)@.cursor_move_ops(row, col),
    {
        match &mut self.mode {
            DisplayMode::Text(text) => text.move_cursor(row, col),
            DisplayMode::Graphics(gfx) => {
                gfx.set_cursor_position(col * GLYPH_WIDTH, row * LINE_HEIGHT);
                Vec::new()
            },
        }
    }

    /// Whether `count` characters can be written without the cursor
    /// running out of the numbers. In text mode they always can.
    pub fn has_room_for(&self, count: usize) -> (room: bool)
        ensures
            room == self@.has_room_for(count as nat),
    {
        match &self.mode {
            DisplayMode::Text(_) => true,
            DisplayMode::Graphics(gfx) => {
                if gfx.cursor_x > usize::MAX - GLYPH_WIDTH {
                    false
                } else {
                    match count.checked_mul(LINE_HEIGHT) {
                        Some(lines) => {
                            assert(LINE_HEIGHT * (count as nat) == count * LINE_HEIGHT)
                                by (nonlinear_arith);
                            lines <= usize::MAX - gfx.cursor_y
                        },
                        None => {
                            assert(LINE_HEIGHT * (count as nat) == count * LINE_HEIGHT)
                                by (nonlinear_arith);
                            false
                        },
                    }
                }
            },
        }
    }

    /// The graphics mode, where the display is in it.
    pub fn get_graphics(&mut self) -> (gfx: Option<&mut GraphicsMode>)
        ensures
            match gfx {
                Some(mode) => old(self)@ == DisplayState::Graphics(mode@) && final(self)@
                    == DisplayState::Graphics(final(mode)@),
                None => old(self)@ is Text && final(self)@ == old(self)@,
            },
    {
        match &mut self.mode {
            DisplayMode::Graphics(gfx) => Some(gfx),
            _ => None,
        }
    }

    /// The text mode, where the display is in it.
    pub fn get_text(&mut self) -> (text: Option<&mut TextMode>)
        ensures
            match text {
                Some(mode) => old(self)@ == DisplayState::Text(mode@) && final(self)@
                    == DisplayState::Text(final(mode)@),
                None => old(self)@ is Graphics && final(self)@ == old(self)@,
            },
    {
        match &mut self.mode {
            DisplayMode::Text(text) => Some(text),
            _ => None,
        }
    }
}

} // verus!
