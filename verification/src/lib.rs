//! A character-mode display driver for a fixed-size memory-mapped text grid.
//!
//! The driver keeps a cursor and a current color, writes bytes and strings
//! into the bottom row of the grid, wraps at the end of a line, scrolls the
//! grid up when a line is finished, and replaces bytes the hardware cannot
//! render with a fixed replacement glyph. Every cell access goes through a
//! volatile wrapper so that no store or load is elided or reordered.
//!
//! The embedding program owns the single process-wide `Writer`, guards it
//! with a spinning lock, and renders formatted arguments to plain text
//! before handing the text to [`_print`].

use vstd::prelude::*;

mod color;
mod screen;
mod writer;

pub use color::Color;
pub use color::ColorCode;
pub use screen::Buffer;
pub use screen::ScreenChar;
pub use screen::BUFFER_HEIGHT;
pub use screen::BUFFER_WIDTH;
pub use writer::blank_cell;
pub use writer::blank_row;
pub use writer::bottom_row;
pub use writer::byte_written;
pub use writer::is_printable;
pub use writer::lemma_column_bound;
pub use writer::lemma_printable_run;
pub use writer::lemma_replacement_glyph;
pub use writer::lemma_round_trip;
pub use writer::lemma_scroll_shifts_rows;
pub use writer::lemma_wrap_at_boundary;
pub use writer::placed;
pub use writer::sanitize_byte;
pub use writer::scrolled;
pub use writer::string_written;
pub use writer::Writer;
pub use writer::BLANK_BYTE;
pub use writer::NEWLINE_BYTE;
pub use writer::REPLACEMENT_BYTE;

verus! {

use vstd::string::StringSliceAdditionalSpecFns;

/// The formatting bridge: takes text that a formatting facility has already
/// rendered and forwards it to the writer's raw string operation. The caller
/// holds the process-wide writer — and whatever lock guards it — for the
/// whole call, so the write is one uninterrupted unit.
pub fn _print(writer: &mut Writer, s: &str)
    requires
        old(writer).wf(),
    ensures
        final(writer).wf(),
        final(writer).color() == old(writer).color(),
        final(writer).grid() == string_written(
            old(writer).grid(),
            old(writer).col(),
            old(writer).color(),
            s.spec_bytes(),
        ).0,
        final(writer).col() == string_written(
            old(writer).grid(),
            old(writer).col(),
            old(writer).color(),
            s.spec_bytes(),
        ).1,
{
    writer.write_string(s);
}

} // verus!
