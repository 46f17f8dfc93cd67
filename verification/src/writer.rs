use vstd::prelude::*;

use crate::color::ColorCode;
use crate::screen::Buffer;
use crate::screen::ScreenChar;
use crate::screen::BUFFER_HEIGHT;
use crate::screen::BUFFER_WIDTH;

verus! {

use vstd::string::StringSliceAdditionalSpecFns;

/// The byte that starts a new line.
pub const NEWLINE_BYTE: u8 = 0x0a;

/// The glyph stored in place of a byte the hardware cannot render.
pub const REPLACEMENT_BYTE: u8 = 0xfe;

/// The glyph a cleared cell holds.
pub const BLANK_BYTE: u8 = 0x20;

/// Whether a byte lies in the printable range the hardware renders directly.
pub open spec fn is_printable(b: u8) -> bool {
    0x20 <= b <= 0x7e
}

/// The byte actually stored for an input byte of a string: printable bytes
/// and newlines pass through, everything else becomes the replacement glyph.
pub open spec fn sanitize_byte(b: u8) -> u8 {
    if is_printable(b) || b == NEWLINE_BYTE {
        b
    } else {
        REPLACEMENT_BYTE
    }
}

/// A cleared cell: a blank glyph under the given color.
pub open spec fn blank_cell(color: ColorCode) -> ScreenChar {
    ScreenChar { ascii_character: BLANK_BYTE, color_code: color }
}

/// A full row of cleared cells.
pub open spec fn blank_row(color: ColorCode) -> Seq<ScreenChar> {
    Seq::new(BUFFER_WIDTH as nat, |c: int| blank_cell(color))
}

/// The grid after a scroll: every row moves up one place, the top row is
/// discarded, and the freed bottom row is cleared under the given color.
pub open spec fn scrolled(g: Seq<Seq<ScreenChar>>, color: ColorCode) -> Seq<Seq<ScreenChar>> {
    Seq::new(
        BUFFER_HEIGHT as nat,
        |r: int|
            if r < BUFFER_HEIGHT - 1 {
                g[r + 1]
            } else {
                blank_row(color)
            },
    )
}

/// The grid after one glyph is placed in the bottom row at the given column.
pub open spec fn placed(g: Seq<Seq<ScreenChar>>, col: int, b: u8, color: ColorCode) -> Seq<
    Seq<ScreenChar>,
> {
    g.update(
        BUFFER_HEIGHT - 1,
        g[BUFFER_HEIGHT - 1].update(col, ScreenChar { ascii_character: b, color_code: color }),
    )
}

/// The grid and column after one byte is written: a newline scrolls and
/// resets the column; any other byte is placed in the bottom row, scrolling
/// first when the column has reached the width.
pub open spec fn byte_written(g: Seq<Seq<ScreenChar>>, col: int, color: ColorCode, b: u8) -> (
    Seq<Seq<ScreenChar>>,
    int,
) {
    if b == NEWLINE_BYTE {
        (scrolled(g, color), 0)
    } else if col >= BUFFER_WIDTH {
        (placed(scrolled(g, color), 0, b, color), 1)
    } else {
        (placed(g, col, b, color), col + 1)
    }
}

/// The grid and column after a whole byte sequence is written, each byte
/// sanitized first as `write_string` does.
pub open spec fn string_written(
    g: Seq<Seq<ScreenChar>>,
    col: int,
    color: ColorCode,
    bs: Seq<u8>,
) -> (Seq<Seq<ScreenChar>>, int)
    decreases bs.len(),
{
    if bs.len() == 0 {
        (g, col)
    } else {
        let prev = string_written(g, col, color, bs.drop_last());
        byte_written(prev.0, prev.1, color, sanitize_byte(bs.last()))
    }
}

/// The active bottom row of a grid.
pub open spec fn bottom_row(g: Seq<Seq<ScreenChar>>) -> Seq<ScreenChar> {
    g[BUFFER_HEIGHT - 1]
}

/// The display writer: the cursor column, the current color, and the grid.
/// The bottom row is always the active row; the rows above hold history.
pub struct Writer {
    column_position: usize,
    color_code: ColorCode,
    buffer: Buffer,
}

impl Writer {
    /// The grid contents.
    pub closed spec fn grid(&self) -> Seq<Seq<ScreenChar>> {
        self.buffer@
    }

    /// The cursor column.
    pub closed spec fn col(&self) -> int {
        self.column_position as int
    }

    /// The current color.
    pub closed spec fn color(&self) -> ColorCode {
        self.color_code
    }

    /// Well-formedness: the grid has its full fixed size and the cursor
    /// never lies beyond the width.
    pub closed spec fn wf(&self) -> bool {
        &&& self.buffer.wf()
        &&& self.column_position <= BUFFER_WIDTH
    }

    /// The shape of a well-formed grid.
    pub open spec fn grid_wf(g: Seq<Seq<ScreenChar>>) -> bool {
        &&& g.len() == BUFFER_HEIGHT
        &&& forall|r: int| 0 <= r < BUFFER_HEIGHT ==> (#[trigger] g[r]).len() == BUFFER_WIDTH
    }

    /// A fresh writer: cursor at column zero, the given color, every cell
    /// cleared under that color.
    pub fn new(color_code: ColorCode) -> (w: Writer)
        ensures
            w.wf(),
            w.col() == 0,
            w.color() == color_code,
            w.grid() == Seq::new(BUFFER_HEIGHT as nat, |r: int| blank_row(color_code)),
    {
        let buffer = Buffer::filled(ScreenChar { ascii_character: BLANK_BYTE, color_code });
        let w = Writer { column_position: 0, color_code, buffer };
        proof {
            assert forall|r: int| 0 <= r < BUFFER_HEIGHT implies w.grid()[r] =~= blank_row(
                color_code,
            ) by {}
            assert(w.grid() =~~= Seq::new(BUFFER_HEIGHT as nat, |r: int| blank_row(color_code)));
        }
        w
    }

    /// Basic facts the closed well-formedness predicate carries: the grid
    /// has its fixed shape and the cursor stays within the width.
    pub proof fn lemma_wf_bounds(&self)
        requires
            self.wf(),
        ensures
            Writer::grid_wf(self.grid()),
            0 <= self.col() <= BUFFER_WIDTH,
    {
    }

    /// Clears one row to blanks under the current color.
    fn clear_row(&mut self, row: usize)
        requires
            old(self).wf(),
            row < BUFFER_HEIGHT,
        ensures
            final(self).wf(),
            final(self).color() == old(self).color(),
            final(self).col() == old(self).col(),
            final(self).grid() == old(self).grid().update(
                row as int,
                blank_row(old(self).color()),
            ),
    {
        let blank = ScreenChar { ascii_character: BLANK_BYTE, color_code: self.color_code };
        let mut col: usize = 0;
        while col < BUFFER_WIDTH
            invariant
                col <= BUFFER_WIDTH,
                row < BUFFER_HEIGHT,
                self.buffer.wf(),
                self.color_code == old(self).color_code,
                self.column_position == old(self).column_position,
                blank == blank_cell(old(self).color()),
                forall|r: int|
                    0 <= r < BUFFER_HEIGHT && r != row ==> self.grid()[r] == old(self).grid()[r],
                forall|j: int|
                    0 <= j < col ==> self.grid()[row as int][j] == blank_cell(old(self).color()),
                forall|j: int|
                    col <= j < BUFFER_WIDTH ==> self.grid()[row as int][j] == old(self).grid()[row as int][j],
            decreases BUFFER_WIDTH - col,
        {
            let ghost g0 = self.grid();
            self.buffer.write(row, col, blank);
            proof {
                assert(self.grid() == g0.update(
                    row as int,
                    g0[row as int].update(col as int, blank),
                ));
                assert(self.grid()[row as int] == g0[row as int].update(col as int, blank));
                assert(forall|j: int|
                    0 <= j < BUFFER_WIDTH && j != col ==> self.grid()[row as int][j] == g0[row as int][j]);
                assert(self.grid()[row as int][col as int] == blank);
            }
            col = col + 1;
        }
        proof {
            assert(self.grid()[row as int] =~= blank_row(old(self).color()));
            assert(self.grid() =~~= old(self).grid().update(
                row as int,
                blank_row(old(self).color()),
            ));
        }
    }

    /// Scrolls: copies every row into the row above it, clears the bottom
    /// row, and resets the cursor to column zero.
    fn new_line(&mut self)
        requires
            old(self).wf(),
        ensures
            final(self).wf(),
            final(self).color() == old(self).color(),
            final(self).grid() == scrolled(old(self).grid(), old(self).color()),
            final(self).col() == 0,
    {
        let mut row: usize = 1;
        while row < BUFFER_HEIGHT
            invariant
                1 <= row <= BUFFER_HEIGHT,
                self.buffer.wf(),
                self.color_code == old(self).color_code,
                self.column_position == old(self).column_position,
                forall|r: int| 0 <= r < row - 1 ==> self.grid()[r] == old(self).grid()[r + 1],
                forall|r: int|
                    row - 1 <= r < BUFFER_HEIGHT ==> self.grid()[r] == old(self).grid()[r],
            decreases BUFFER_HEIGHT - row,
        {
            let ghost dst: int = row - 1;
            let mut col: usize = 0;
            while col < BUFFER_WIDTH
                invariant
                    1 <= row < BUFFER_HEIGHT,
                    dst == row - 1,
                    col <= BUFFER_WIDTH,
                    self.buffer.wf(),
                    self.color_code == old(self).color_code,
                    self.column_position == old(self).column_position,
                    forall|r: int| 0 <= r < row - 1 ==> self.grid()[r] == old(self).grid()[r + 1],
                    forall|r: int|
                        row <= r < BUFFER_HEIGHT ==> self.grid()[r] == old(self).grid()[r],
                    forall|j: int|
                        0 <= j < col ==> #[trigger] self.grid()[dst][j] == old(self).grid()[row as int][j],
                    forall|j: int|
                        col <= j < BUFFER_WIDTH ==> #[trigger] self.grid()[dst][j] == old(
                            self,
                        ).grid()[dst][j],
                decreases BUFFER_WIDTH - col,
            {
                let ghost g0 = self.grid();
                let character = self.buffer.read(row, col);
                self.buffer.write(row - 1, col, character);
                proof {
                    assert(self.grid() == g0.update(dst, g0[dst].update(col as int, character)));
                    assert(forall|r: int|
                        0 <= r < BUFFER_HEIGHT && r != dst ==> self.grid()[r] == g0[r]);
                    assert(forall|j: int|
                        0 <= j < BUFFER_WIDTH && j != col ==> self.grid()[dst][j] == g0[dst][j]);
                    assert(self.grid()[dst][col as int] == character);
                }
                col = col + 1;
            }
            proof {
                assert(self.grid()[row - 1] =~= old(self).grid()[row as int]);
            }
            row = row + 1;
        }
        self.clear_row(BUFFER_HEIGHT - 1);
        self.column_position = 0;
        proof {
            assert(self.grid() =~~= scrolled(old(self).grid(), old(self).color()));
        }
    }

    /// Writes one byte: a newline scrolls; any other byte is placed at the
    /// cursor in the bottom row, after a scroll when the line is full. Every
    /// byte value is accepted unchanged at this layer.
    pub fn write_byte(&mut self, byte: u8)
        requires
            old(self).wf(),
        ensures
            final(self).wf(),
            final(self).color() == old(self).color(),
            final(self).grid() == byte_written(
                old(self).grid(),
                old(self).col(),
                old(self).color(),
                byte,
            ).0,
            final(self).col() == byte_written(
                old(self).grid(),
                old(self).col(),
                old(self).color(),
                byte,
            ).1,
    {
        if byte == NEWLINE_BYTE {
            self.new_line();
        } else {
            if self.column_position >= BUFFER_WIDTH {
                self.new_line();
            }
            let row = BUFFER_HEIGHT - 1;
            let col = self.column_position;
            let color_code = self.color_code;
            self.buffer.write(row, col, ScreenChar { ascii_character: byte, color_code });
            self.column_position = col + 1;
        }
    }

    /// Writes a whole string byte by byte: printable bytes and newlines are
    /// forwarded to `write_byte` unchanged, every other byte of the string's
    /// encoding is replaced by the replacement glyph first.
    pub fn write_string(&mut self, s: &str)
        requires
            old(self).wf(),
        ensures
            final(self).wf(),
            final(self).color() == old(self).color(),
            final(self).grid() == string_written(
                old(self).grid(),
                old(self).col(),
                old(self).color(),
                s.spec_bytes(),
            ).0,
            final(self).col() == string_written(
                old(self).grid(),
                old(self).col(),
                old(self).color(),
                s.spec_bytes(),
            ).1,
    {
        let bytes = s.as_bytes();
        let n = bytes.len();
        let mut i: usize = 0;
        while i < n
            invariant
                i <= n,
                n == bytes@.len(),
                bytes@ == s.spec_bytes(),
                self.wf(),
                self.color() == old(self).color(),
                self.grid() == string_written(
                    old(self).grid(),
                    old(self).col(),
                    old(self).color(),
                    bytes@.take(i as int),
                ).0,
                self.col() == string_written(
                    old(self).grid(),
                    old(self).col(),
                    old(self).color(),
                    bytes@.take(i as int),
                ).1,
            decreases n - i,
        {
            let byte = bytes[i];
            proof {
                assert(bytes@.take(i + 1).drop_last() =~= bytes@.take(i as int));
                assert(bytes@.take(i + 1).last() == byte);
            }
            if 0x20 <= byte && byte <= 0x7e || byte == NEWLINE_BYTE {
                self.write_byte(byte);
            } else {
                self.write_byte(REPLACEMENT_BYTE);
            }
            i = i + 1;
        }
        proof {
            assert(bytes@.take(n as int) =~= bytes@);
        }
    }

    /// The cursor column as a runtime value.
    pub fn column_position(&self) -> (c: usize)
        ensures
            c as int == self.col(),
    {
        self.column_position
    }

    /// The current color as a runtime value.
    pub fn color_code(&self) -> (c: ColorCode)
        ensures
            c == self.color(),
    {
        self.color_code
    }

    /// Reads back the cell at the given position.
    pub fn cell_at(&self, row: usize, col: usize) -> (c: ScreenChar)
        requires
            self.wf(),
            row < BUFFER_HEIGHT,
            col < BUFFER_WIDTH,
        ensures
            c == self.grid()[row as int][col as int],
    {
        self.buffer.read(row, col)
    }
}

/// Column bound: however many bytes are written from a cursor within the
/// width, the cursor stays within [0, width].
pub proof fn lemma_column_bound(g: Seq<Seq<ScreenChar>>, col: int, color: ColorCode, bs: Seq<u8>)
    requires
        0 <= col <= BUFFER_WIDTH,
    ensures
        0 <= string_written(g, col, color, bs).1 <= BUFFER_WIDTH,
    decreases bs.len(),
{
    if bs.len() > 0 {
        lemma_column_bound(g, col, color, bs.drop_last());
    }
}

/// Scroll correctness: after a scroll every row holds what the row below it
/// held, and the freed bottom row is blank under the current color.
pub proof fn lemma_scroll_shifts_rows(g: Seq<Seq<ScreenChar>>, color: ColorCode)
    ensures
        forall|r: int| 0 <= r < BUFFER_HEIGHT - 1 ==> #[trigger] scrolled(g, color)[r] == g[r + 1],
        bottom_row(scrolled(g, color)) == blank_row(color),
{
}

/// A run of printable bytes that fits in the rest of the line advances the
/// cursor by its length, stores each byte at its own column of the bottom
/// row under the current color, and leaves every other cell unchanged.
pub proof fn lemma_printable_run(g: Seq<Seq<ScreenChar>>, col: int, color: ColorCode, bs: Seq<u8>)
    requires
        Writer::grid_wf(g),
        0 <= col,
        col + bs.len() <= BUFFER_WIDTH,
        forall|k: int| 0 <= k < bs.len() ==> is_printable(#[trigger] bs[k]),
    ensures
        string_written(g, col, color, bs).1 == col + bs.len(),
        Writer::grid_wf(string_written(g, col, color, bs).0),
        forall|r: int|
            0 <= r < BUFFER_HEIGHT - 1 ==> #[trigger] string_written(g, col, color, bs).0[r]
                == g[r],
        forall|j: int|
            col <= j < col + bs.len() ==> #[trigger] bottom_row(string_written(g, col, color, bs).0)[j]
                == (ScreenChar { ascii_character: bs[j - col], color_code: color }),
        forall|j: int|
            0 <= j < BUFFER_WIDTH && !(col <= j < col + bs.len()) ==> #[trigger] bottom_row(
                string_written(g, col, color, bs).0,
            )[j] == bottom_row(g)[j],
    decreases bs.len(),
{
    if bs.len() > 0 {
        let prefix = bs.drop_last();
        let b = bs.last();
        assert(forall|k: int| 0 <= k < prefix.len() ==> prefix[k] == bs[k]);
        lemma_printable_run(g, col, color, prefix);
        let mid = string_written(g, col, color, prefix);
        assert(is_printable(b));
        assert(b != NEWLINE_BYTE);
        assert(sanitize_byte(b) == b);
        assert(mid.1 == col + bs.len() - 1 < BUFFER_WIDTH);
        let ng = string_written(g, col, color, bs).0;
        assert(ng == placed(mid.0, mid.1, b, color));
        assert(bottom_row(ng) == bottom_row(mid.0).update(
            mid.1,
            ScreenChar { ascii_character: b, color_code: color },
        ));
        assert forall|j: int| col <= j < col + bs.len() implies #[trigger] bottom_row(ng)[j] == (
        ScreenChar { ascii_character: bs[j - col], color_code: color }) by {
            if j < col + bs.len() - 1 {
                assert(bottom_row(mid.0)[j] == (ScreenChar {
                    ascii_character: prefix[j - col],
                    color_code: color,
                }));
            }
        }
    }
}

/// Round trip: a printable string written at the start of the line reads
/// back, byte for byte, from the first cells of the bottom row.
pub proof fn lemma_round_trip(g: Seq<Seq<ScreenChar>>, color: ColorCode, bs: Seq<u8>)
    requires
        Writer::grid_wf(g),
        bs.len() <= BUFFER_WIDTH,
        forall|k: int| 0 <= k < bs.len() ==> is_printable(#[trigger] bs[k]),
    ensures
        string_written(g, 0, color, bs).1 == bs.len(),
        forall|k: int|
            0 <= k < bs.len() ==> (#[trigger] bottom_row(
                string_written(g, 0, color, bs).0,
            )[k]).ascii_character == bs[k],
{
    lemma_printable_run(g, 0, color, bs);
}

/// Wrap at the boundary: exactly a line's width of printable bytes fills the
/// bottom row and leaves the cursor at the width; the next printable byte
/// scrolls first — the filled row moves up one — and lands at column 0 of
/// the fresh bottom row.
pub proof fn lemma_wrap_at_boundary(g: Seq<Seq<ScreenChar>>, color: ColorCode, bs: Seq<u8>, b: u8)
    requires
        Writer::grid_wf(g),
        bs.len() == BUFFER_WIDTH,
        forall|k: int| 0 <= k < bs.len() ==> is_printable(#[trigger] bs[k]),
        is_printable(b),
    ensures
        string_written(g, 0, color, bs).1 == BUFFER_WIDTH,
        forall|k: int|
            0 <= k < BUFFER_WIDTH ==> (#[trigger] bottom_row(
                string_written(g, 0, color, bs).0,
            )[k]).ascii_character == bs[k],
        string_written(g, 0, color, bs.push(b)).1 == 1,
        bottom_row(string_written(g, 0, color, bs.push(b)).0)[0] == (ScreenChar {
            ascii_character: b,
            color_code: color,
        }),
        string_written(g, 0, color, bs.push(b)).0[BUFFER_HEIGHT - 2] == bottom_row(
            string_written(g, 0, color, bs).0,
        ),
{
    lemma_printable_run(g, 0, color, bs);
    let mid = string_written(g, 0, color, bs);
    assert(bs.push(b).drop_last() =~= bs);
    assert(bs.push(b).last() == b);
    assert(b != NEWLINE_BYTE);
    assert(sanitize_byte(b) == b);
    assert(string_written(g, 0, color, bs.push(b)) == byte_written(mid.0, mid.1, color, b));
    let sg = scrolled(mid.0, color);
    let ng = string_written(g, 0, color, bs.push(b)).0;
    assert(ng == placed(sg, 0, b, color));
    assert(sg[BUFFER_HEIGHT - 2] == mid.0[BUFFER_HEIGHT - 1]);
    assert(ng[BUFFER_HEIGHT - 2] == sg[BUFFER_HEIGHT - 2]);
    assert(bottom_row(ng) == bottom_row(sg).update(
        0,
        ScreenChar { ascii_character: b, color_code: color },
    ));
    assert(blank_row(color).len() == BUFFER_WIDTH);
}

/// Replacement glyph: a byte that is neither printable nor a newline is
/// stored as the fixed replacement byte, never as itself.
pub proof fn lemma_replacement_glyph(g: Seq<Seq<ScreenChar>>, col: int, color: ColorCode, b: u8)
    requires
        Writer::grid_wf(g),
        0 <= col < BUFFER_WIDTH,
        !is_printable(b),
        b != NEWLINE_BYTE,
    ensures
        string_written(g, col, color, seq![b]).1 == col + 1,
        bottom_row(string_written(g, col, color, seq![b]).0)[col] == (ScreenChar {
            ascii_character: REPLACEMENT_BYTE,
            color_code: color,
        }),
{
    let one = seq![b];
    assert(one.drop_last() =~= Seq::<u8>::empty());
    assert(one.last() == b);
    assert(string_written(g, col, color, one.drop_last()) == (g, col));
    assert(sanitize_byte(b) == REPLACEMENT_BYTE);
    assert(string_written(g, col, color, one) == byte_written(g, col, color, REPLACEMENT_BYTE));
    assert(bottom_row(string_written(g, col, color, one).0) == bottom_row(g).update(
        col,
        ScreenChar { ascii_character: REPLACEMENT_BYTE, color_code: color },
    ));
}

} // verus!
