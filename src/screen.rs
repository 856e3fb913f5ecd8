use vstd::prelude::*;
use crate::buffer::{is_grid, HEIGHT, WIDTH};
use crate::color::{ColorCode, ScreenChar};

verus! {

/// The newline byte.
pub const NEWLINE: u8 = 0x0a;

/// What an unsupported byte is shown as: a block glyph in the hardware font.
pub const PLACEHOLDER: u8 = 0xfe;

/// A byte that the font shows as itself: printable ASCII, `0x20` to `0x7e`.
pub open spec fn is_printable(b: u8) -> bool {
    0x20 <= b <= 0x7e
}

/// The byte that a byte of text is written as: printable bytes and newline
/// stay, every other byte becomes the placeholder.
pub open spec fn glyph(b: u8) -> u8 {
    if is_printable(b) || b == NEWLINE {
        b
    } else {
        PLACEHOLDER
    }
}

/// The state of a text screen: its grid, the next free column of the last
/// row, and the colour that writes use.
pub struct Screen {
    pub rows: Seq<Seq<ScreenChar>>,
    pub column: nat,
    pub color: ColorCode,
}

impl Screen {
    pub open spec fn wf(self) -> bool {
        &&& is_grid(self.rows)
        &&& self.column <= WIDTH
    }

    /// A blank cell in the current colour.
    pub open spec fn blank(self) -> ScreenChar {
        ScreenChar { ascii_character: 0x20, color_code: self.color }
    }

    pub open spec fn blank_row(self) -> Seq<ScreenChar> {
        Seq::new(WIDTH as nat, |c: int| self.blank())
    }

    /// Every cell of `row` blanked.
    pub open spec fn clear_row(self, row: int) -> Screen {
        Screen { rows: self.rows.update(row, self.blank_row()), ..self }
    }

    /// Every row moved up by one, the top row dropped, a blank last row, and
    /// the column back at 0.
    pub open spec fn scroll(self) -> Screen {
        Screen {
            rows: self.rows.subrange(1, HEIGHT as int).push(self.blank_row()),
            column: 0,
            ..self
        }
    }

    /// One byte written as it is: a newline scrolls; any other byte goes to
    /// the next column of the last row, after a scroll if that row is full.
    pub open spec fn put(self, byte: u8) -> Screen {
        if byte == NEWLINE {
            self.scroll()
        } else {
            let s = if self.column >= WIDTH {
                self.scroll()
            } else {
                self
            };
            let last = HEIGHT - 1;
            Screen {
                rows: s.rows.update(
                    last,
                    s.rows[last].update(
                        s.column as int,
                        ScreenChar { ascii_character: byte, color_code: s.color },
                    ),
                ),
                column: s.column + 1,
                ..s
            }
        }
    }

    /// Bytes written one after another as they are.
    pub open spec fn put_all(self, bytes: Seq<u8>) -> Screen
        decreases bytes.len(),
    {
        if bytes.len() == 0 {
            self
        } else {
            self.put_all(bytes.drop_last()).put(bytes.last())
        }
    }

    /// Text written one byte after another, each as its glyph.
    pub open spec fn write_text(self, bytes: Seq<u8>) -> Screen
        decreases bytes.len(),
    {
        if bytes.len() == 0 {
            self
        } else {
            self.write_text(bytes.drop_last()).put(glyph(bytes.last()))
        }
    }

    /// Every state that scrolling, writing a byte or writing text reaches
    /// from a well-formed one is well formed: the column stays within
    /// `0..=WIDTH`, and a scroll puts it back at 0.
    pub proof fn lemma_wf_kept(self, byte: u8, bytes: Seq<u8>)
        requires
            self.wf(),
        ensures
            self.scroll().wf(),
            self.scroll().column == 0,
            self.put(byte).wf(),
            self.write_text(bytes).wf(),
        decreases bytes.len(),
    {
        if bytes.len() > 0 {
            self.lemma_wf_kept(byte, bytes.drop_last());
            self.write_text(bytes.drop_last()).lemma_wf_kept(glyph(bytes.last()), Seq::empty());
        }
    }

    /// A scroll keeps every row but the top one, one row higher; the new
    /// last row is blank in the current colour; the column is 0.
    pub proof fn lemma_scroll_shifts(self)
        requires
            self.wf(),
        ensures
            is_grid(self.scroll().rows),
            forall|r: int| 1 <= r < HEIGHT ==> #[trigger] self.scroll().rows[r - 1] == self.rows[r],
            forall|c: int| 0 <= c < WIDTH ==> #[trigger] self.scroll().rows[HEIGHT - 1][c] == self.blank(),
            self.scroll().column == 0,
            self.scroll().color == self.color,
    {
        self.lemma_wf_kept(0, Seq::empty());
    }

    /// Text made only of printable bytes and newlines is written exactly as
    /// it is, byte for byte.
    pub proof fn lemma_text_kept(self, bytes: Seq<u8>)
        requires
            forall|i: int| 0 <= i < bytes.len() ==> is_printable(#[trigger] bytes[i]) || bytes[i] == NEWLINE,
        ensures
            self.write_text(bytes) == self.put_all(bytes),
        decreases bytes.len(),
    {
        if bytes.len() > 0 {
            let init = bytes.drop_last();
            assert forall|i: int| 0 <= i < init.len() implies is_printable(#[trigger] init[i]) || init[i] == NEWLINE by {
                assert(init[i] == bytes[i]);
            }
            self.lemma_text_kept(init);
        }
    }

    /// Writing a byte that is neither printable nor a newline shows the
    /// placeholder glyph in the cell it lands in, and so never the byte
    /// itself, unless the byte is the placeholder.
    pub proof fn lemma_placeholder(self, byte: u8)
        requires
            self.wf(),
            !is_printable(byte),
            byte != NEWLINE,
        ensures
            self.write_text(seq![byte]) == self.put(PLACEHOLDER),
            1 <= self.write_text(seq![byte]).column <= WIDTH,
            self.write_text(seq![byte]).rows[HEIGHT - 1][self.write_text(seq![byte]).column - 1]
                == (ScreenChar { ascii_character: PLACEHOLDER, color_code: self.color }),
            byte != PLACEHOLDER ==> self.write_text(seq![byte]).rows[HEIGHT - 1][self.write_text(
                seq![byte],
            ).column - 1].ascii_character != byte,
    {
        let bytes = seq![byte];
        assert(bytes.drop_last() =~= Seq::empty());
        self.lemma_wf_kept(0, Seq::empty());
    }

    /// Printable text that fits in the rest of the last row is read back from
    /// that row in order, in the current colour, starting at the column where
    /// the writing began; nothing else on the screen changes.
    pub proof fn lemma_read_back(self, bytes: Seq<u8>)
        requires
            self.wf(),
            self.column + bytes.len() <= WIDTH,
            forall|i: int| 0 <= i < bytes.len() ==> is_printable(#[trigger] bytes[i]),
        ensures
            self.write_text(bytes).column == self.column + bytes.len(),
            self.write_text(bytes).color == self.color,
            is_grid(self.write_text(bytes).rows),
            forall|i: int|
                0 <= i < bytes.len() ==> #[trigger] self.write_text(bytes).rows[HEIGHT - 1][self.column + i]
                    == (ScreenChar { ascii_character: bytes[i], color_code: self.color }),
            forall|c: int|
                0 <= c < self.column || self.column + bytes.len() <= c < WIDTH
                    ==> #[trigger] self.write_text(bytes).rows[HEIGHT - 1][c] == self.rows[HEIGHT - 1][c],
            forall|r: int| 0 <= r < HEIGHT - 1 ==> #[trigger] self.write_text(bytes).rows[r] == self.rows[r],
        decreases bytes.len(),
    {
        self.lemma_wf_kept(0, bytes);
        if bytes.len() > 0 {
            let init = bytes.drop_last();
            assert forall|i: int| 0 <= i < init.len() implies is_printable(#[trigger] init[i]) by {
                assert(init[i] == bytes[i]);
            }
            self.lemma_read_back(init);
            let prev = self.write_text(init);
            assert(glyph(bytes.last()) == bytes.last());
            let t = self.write_text(bytes);
            assert(t == prev.put(bytes.last()));
            assert forall|i: int| 0 <= i < bytes.len() implies #[trigger] t.rows[HEIGHT - 1][self.column + i]
                == (ScreenChar { ascii_character: bytes[i], color_code: self.color }) by {
                if i < init.len() {
                    assert(init[i] == bytes[i]);
                    assert(prev.rows[HEIGHT - 1][self.column + i]
                        == (ScreenChar { ascii_character: init[i], color_code: self.color }));
                }
            }
        }
    }

    /// Writing `WIDTH` printable bytes from column 0 fills the last row and
    /// leaves the column at `WIDTH`; one more printable byte scrolls exactly
    /// once and lands at column 0 of the new last row.
    pub proof fn lemma_full_row(self, bytes: Seq<u8>, next: u8)
        requires
            self.wf(),
            self.column == 0,
            bytes.len() == WIDTH,
            forall|i: int| 0 <= i < bytes.len() ==> is_printable(#[trigger] bytes[i]),
            is_printable(next),
        ensures
            self.write_text(bytes).column == WIDTH,
            forall|c: int|
                0 <= c < WIDTH ==> #[trigger] self.write_text(bytes).rows[HEIGHT - 1][c]
                    == (ScreenChar { ascii_character: bytes[c], color_code: self.color }),
            self.write_text(bytes.push(next)).rows == self.write_text(bytes).scroll().rows.update(
                HEIGHT - 1,
                self.blank_row().update(0, ScreenChar { ascii_character: next, color_code: self.color }),
            ),
            self.write_text(bytes.push(next)).rows[HEIGHT - 1][0]
                == (ScreenChar { ascii_character: next, color_code: self.color }),
            forall|r: int| 1 <= r < HEIGHT ==> #[trigger] self.write_text(bytes.push(next)).rows[r - 1]
                == self.write_text(bytes).rows[r],
            self.write_text(bytes.push(next)).column == 1,
    {
        self.lemma_read_back(bytes);
        let t = self.write_text(bytes);
        assert forall|c: int| 0 <= c < WIDTH implies #[trigger] t.rows[HEIGHT - 1][c]
            == (ScreenChar { ascii_character: bytes[c], color_code: self.color }) by {
            assert(t.rows[HEIGHT - 1][self.column + c] == t.rows[HEIGHT - 1][c]);
        }
        assert(bytes.push(next).drop_last() =~= bytes);
        t.lemma_scroll_shifts();
        let u = self.write_text(bytes.push(next));
        assert(u == t.put(next));
        assert forall|r: int| 1 <= r < HEIGHT implies #[trigger] u.rows[r - 1] == t.rows[r] by {
            if r < HEIGHT - 1 {
                assert(u.rows[r - 1] == t.scroll().rows[r - 1]);
            } else {
                assert(u.rows[r - 1] == t.scroll().rows[r - 1]);
            }
        }
    }
}

} // verus!
