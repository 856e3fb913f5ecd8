use vstd::prelude::*;
use crate::buffer::{is_grid, Buffer, HEIGHT, WIDTH};
use crate::color::{ColorCode, ScreenChar};
use crate::screen::{Screen, NEWLINE, PLACEHOLDER};
use vstd::string::StringSliceAdditionalSpecFns;

verus! {

/// Writes text to the last row of a `Buffer`, wrapping and scrolling as it goes.
pub struct Writer {
    column_position: usize,
    color_code: ColorCode,
    buffer: Buffer,
}

impl View for Writer {
    type V = Screen;

    closed spec fn view(&self) -> Screen {
        Screen {
            rows: self.buffer@,
            column: self.column_position as nat,
            color: self.color_code,
        }
    }
}

impl Writer {
    /// The column never passes the end of the row.
    #[verifier::type_invariant]
    spec fn inv(self) -> bool {
        self.column_position <= WIDTH
    }

    /// A writer at column 0 of `buffer`'s last row, writing in `color_code`.
    pub fn new(color_code: ColorCode, buffer: Buffer) -> (r: Writer)
        ensures
            r@ == (Screen { rows: buffer@, column: 0, color: color_code }),
            r@.wf(),
    {
        proof {
            buffer.lemma_grid();
        }
        Writer { column_position: 0, color_code, buffer }
    }

    /// Overwrites every cell of `row` with a space in the current colour.
    pub fn clear_row(&mut self, row: usize)
        requires
            row < HEIGHT,
        ensures
            final(self)@ == old(self)@.clear_row(row as int),
            final(self)@.wf(),
    {
        let blank = ScreenChar { ascii_character: 0x20, color_code: self.color_code };
        proof {
            use_type_invariant(&*self);
            self.buffer.lemma_grid();
        }
        let mut col: usize = 0;
        while col < WIDTH
            invariant
                0 <= col <= WIDTH,
                row < HEIGHT,
                is_grid(self.buffer@),
                is_grid(old(self).buffer@),
                self.column_position == old(self).column_position,
                self.column_position <= WIDTH,
                self.color_code == old(self).color_code,
                blank == old(self)@.blank(),
                forall|r: int| 0 <= r < HEIGHT && r != row ==> #[trigger] self.buffer@[r] == old(self).buffer@[r],
                forall|c: int| 0 <= c < col ==> #[trigger] self.buffer@[row as int][c] == blank,
                forall|c: int| col <= c < WIDTH ==> #[trigger] self.buffer@[row as int][c] == old(self).buffer@[row as int][c],
            decreases WIDTH - col,
        {
            self.buffer.write(row, col, blank);
            col = col + 1;
        }
        assert(self.buffer@[row as int] =~= old(self)@.blank_row());
        assert(self.buffer@ =~= old(self)@.clear_row(row as int).rows);
        proof {
            use_type_invariant(&*self);
            self.buffer.lemma_grid();
        }
    }

    /// Scrolls: copies each row from the second on into the row above it, top
    /// to bottom, then blanks the last row and returns to column 0.
    pub fn new_line(&mut self)
        ensures
            final(self)@ == old(self)@.scroll(),
            final(self)@.wf(),
    {
        proof {
            use_type_invariant(&*self);
            self.buffer.lemma_grid();
        }
        let mut row: usize = 1;
        while row < HEIGHT
            invariant
                1 <= row <= HEIGHT,
                is_grid(self.buffer@),
                is_grid(old(self).buffer@),
                self.column_position == old(self).column_position,
                self.column_position <= WIDTH,
                self.color_code == old(self).color_code,
                forall|r: int| 0 <= r < row - 1 ==> #[trigger] self.buffer@[r] == old(self).buffer@[r + 1],
                forall|r: int| row - 1 <= r < HEIGHT ==> #[trigger] self.buffer@[r] == old(self).buffer@[r],
            decreases HEIGHT - row,
        {
            let mut col: usize = 0;
            while col < WIDTH
                invariant
                    1 <= row < HEIGHT,
                    0 <= col <= WIDTH,
                    is_grid(self.buffer@),
                    is_grid(old(self).buffer@),
                    self.column_position == old(self).column_position,
                    self.column_position <= WIDTH,
                    self.color_code == old(self).color_code,
                    forall|r: int| 0 <= r < row - 1 ==> #[trigger] self.buffer@[r] == old(self).buffer@[r + 1],
                    forall|r: int| row <= r < HEIGHT ==> #[trigger] self.buffer@[r] == old(self).buffer@[r],
                    forall|c: int| 0 <= c < col ==> #[trigger] self.buffer@[row - 1][c] == old(self).buffer@[row as int][c],
                    forall|c: int| col <= c < WIDTH ==> #[trigger] self.buffer@[row - 1][c] == old(self).buffer@[row - 1][c],
                decreases WIDTH - col,
            {
                let ch = self.buffer.read(row, col);
                self.buffer.write(row - 1, col, ch);
                col = col + 1;
            }
            assert(self.buffer@[row - 1] =~= old(self).buffer@[row as int]);
            row = row + 1;
        }
        self.clear_row(HEIGHT - 1);
        self.column_position = 0;
        assert(self@.rows =~= old(self)@.scroll().rows);
        proof {
            self.buffer.lemma_grid();
        }
    }

    /// Writes one byte as it is. A newline scrolls. Any other byte goes to
    /// the next column of the last row, after a scroll if that row is full.
    pub fn write_byte(&mut self, byte: u8)
        ensures
            final(self)@ == old(self)@.put(byte),
            final(self)@.wf(),
    {
        if byte == NEWLINE {
            self.new_line();
        } else {
            if self.column_position >= WIDTH {
                self.new_line();
            }
            proof {
                use_type_invariant(&*self);
                self.buffer.lemma_grid();
            }
            let row = HEIGHT - 1;
            let col = self.column_position;
            let color_code = self.color_code;
            self.buffer.write(row, col, ScreenChar { ascii_character: byte, color_code });
            self.column_position = col + 1;
        }
        proof {
            use_type_invariant(&*self);
            self.buffer.lemma_grid();
        }
    }

    /// Writes the bytes of `s` one after another: printable ASCII and newline
    /// as they are, every other byte as the placeholder glyph.
    pub fn write_string(&mut self, s: &str)
        ensures
            final(self)@ == old(self)@.write_text(s.spec_bytes()),
            final(self)@.wf(),
    {
        let bytes = s.as_bytes();
        let mut i: usize = 0;
        while i < bytes.len()
            invariant
                bytes@ == s.spec_bytes(),
                0 <= i <= bytes@.len(),
                self@ == old(self)@.write_text(bytes@.subrange(0, i as int)),
            decreases bytes@.len() - i,
        {
            let byte = bytes[i];
            let shown = if (0x20 <= byte && byte <= 0x7e) || byte == NEWLINE {
                byte
            } else {
                PLACEHOLDER
            };
            self.write_byte(shown);
            assert(bytes@.subrange(0, i + 1).drop_last() =~= bytes@.subrange(0, i as int));
            i = i + 1;
        }
        assert(bytes@.subrange(0, i as int) =~= bytes@);
        proof {
            use_type_invariant(&*self);
            self.buffer.lemma_grid();
        }
    }

    /// The next free column of the last row; its state is well formed.
    pub fn column_position(&self) -> (r: usize)
        ensures
            r == self@.column,
            self@.wf(),
    {
        proof {
            use_type_invariant(self);
            self.buffer.lemma_grid();
        }
        self.column_position
    }

    /// The colour that writes use.
    pub fn color_code(&self) -> (r: ColorCode)
        ensures
            r == self@.color,
    {
        self.color_code
    }

    /// The cell at `row`, `col`, read from the buffer.
    pub fn read_cell(&self, row: usize, col: usize) -> (r: ScreenChar)
        requires
            row < HEIGHT,
            col < WIDTH,
        ensures
            r == self@.rows[row as int][col as int],
    {
        self.buffer.read(row, col)
    }
}

} // verus!
