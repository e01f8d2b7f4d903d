//! The shell's prompt and its blinking cursor.

use vstd::prelude::*;
use crate::framebuffer::{
    cell_in_bounds, with_raster, Color, FrameBufferWriter, Glyph, Screen, CHAR_RASTER_PIXELS,
    CHAR_RASTER_WIDTH,
};

verus! {

/// The prompt that the shell shows.
pub const PROMPT: &'static str = "--> ";

/// The number of characters of the prompt.
pub const PROMPT_LEN: usize = 4;

/// The intensity at which the cursor block is drawn.
pub const CURSOR_INTENSITY: u8 = 127;

/// The shell, with the place of its cursor.
#[derive(Debug)]
pub struct Shell {
    cursor_x: usize,
    cursor_y: usize,
}

/// The colour that the cursor block takes after `color`: blue after white,
/// and white after every other colour.
pub open spec fn blink(color: Color) -> Color {
    if color == Color::White {
        Color::Blue
    } else {
        Color::White
    }
}

impl Shell {
    /// The column of the shell's cursor.
    pub closed spec fn x(&self) -> usize {
        self.cursor_x
    }

    /// The row of the shell's cursor.
    pub closed spec fn y(&self) -> usize {
        self.cursor_y
    }

    /// The column of the shell's cursor.
    pub fn cursor_x(&self) -> (x: usize)
        ensures
            x == self.x(),
    {
        self.cursor_x
    }

    /// The row of the shell's cursor.
    pub fn cursor_y(&self) -> (y: usize)
        ensures
            y == self.y(),
    {
        self.cursor_y
    }

    /// Starts the shell: clears the screen and writes the prompt.
    pub fn init(fb: &mut FrameBufferWriter) -> (shell: Shell)
        requires
            old(fb).wf(),
        ensures
            final(fb).wf(),
            final(fb).info() == old(fb).info(),
            final(fb)@ == old(fb)@.cleared().with_text(old(fb).info(), PROMPT@, PROMPT@.len()),
            shell.x() == PROMPT_LEN + CHAR_RASTER_WIDTH,
            shell.y() == 0,
    {
        fb.clear();
        fb.write_str(PROMPT);
        Shell { cursor_x: PROMPT_LEN + CHAR_RASTER_WIDTH, cursor_y: 0 }
    }

    /// Lets the cursor blink: switches the colour between white and blue and
    /// draws a block in the new colour into the cell at the cursor. The cell
    /// must lie inside the framebuffer.
    pub fn update(fb: &mut FrameBufferWriter)
        requires
            old(fb).wf(),
            cell_in_bounds(
                old(fb)@.pixels.len() as int,
                old(fb).info(),
                old(fb)@.x_pos as int,
                old(fb)@.y_pos as int,
            ),
        ensures
            final(fb).wf(),
            final(fb).info() == old(fb).info(),
            final(fb)@ == (Screen {
                pixels: with_raster(
                    old(fb)@.pixels,
                    old(fb).info(),
                    blink(old(fb)@.color),
                    old(fb)@.x_pos as int,
                    old(fb)@.y_pos as int,
                    Seq::new(CHAR_RASTER_PIXELS as nat, |i: int| CURSOR_INTENSITY),
                    CHAR_RASTER_PIXELS as nat,
                ),
                color: blink(old(fb)@.color),
                ..old(fb)@
            }),
    {
        let x_pos: usize = fb.x_pos();
        let y_pos: usize = fb.y_pos();
        let is_color_white: bool = fb.color() == Color::White;
        if is_color_white {
            fb.set_color(Color::Blue);
        } else {
            fb.set_color(Color::White);
        }
        let block: Glyph = Glyph::filled(CURSOR_INTENSITY);
        fb.draw_glyph(x_pos, y_pos, &block);
    }
}

} // verus!
