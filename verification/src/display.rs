//! The monochrome display: a grid of pixels drawn by exclusive-or, and a flag
//! that tells the renderer that a drawing operation has run.

use vstd::prelude::*;
use crate::constants::{ORIGINAL_HEIGHT, ORIGINAL_WIDTH, SPRITE_WIDTH};

verus! {

/// Whether a sprite row has its bit for column `col` set; column 0 is the
/// most significant bit.
pub open spec fn sprite_bit(row: u8, col: int) -> bool {
    (row & (0x80u8 >> (col as u8))) != 0
}

/// Whether the sprite `rows`, placed with its top left corner at column
/// `left`, row `top`, has a set bit on the cell at column `x`, row `y`.
/// Nothing of a sprite wraps round: it covers only cells at or after its
/// corner.
pub open spec fn sprite_covers(rows: Seq<u8>, left: int, top: int, x: int, y: int) -> bool {
    &&& top <= y < top + rows.len()
    &&& left <= x < left + SPRITE_WIDTH
    &&& sprite_bit(rows[y - top], x - left)
}

/// What a display shows: its pixels, row by row, and the dirty flag.
#[verifier::ext_equal]
pub struct DisplayView {
    /// `pixels[y][x]` is the pixel in row `y`, column `x`.
    pub pixels: Seq<Seq<bool>>,
    /// Set by every drawing operation; cleared by the renderer.
    pub changed: bool,
}

impl DisplayView {
    /// The grid has `ORIGINAL_HEIGHT` rows of `ORIGINAL_WIDTH` pixels.
    pub open spec fn wf(self) -> bool {
        &&& self.pixels.len() == ORIGINAL_HEIGHT
        &&& forall|y: int| 0 <= y < ORIGINAL_HEIGHT ==> (#[trigger] self.pixels[y]).len() == ORIGINAL_WIDTH
    }

    /// The pixel in column `x` of row `y`.
    pub open spec fn pixel(self, x: int, y: int) -> bool {
        self.pixels[y][x]
    }

    /// A dirty display with every pixel off.
    pub open spec fn blank() -> DisplayView {
        DisplayView {
            pixels: Seq::new(
                ORIGINAL_HEIGHT as nat,
                |y: int| Seq::new(ORIGINAL_WIDTH as nat, |x: int| false),
            ),
            changed: true,
        }
    }

    /// Whether drawing `value` at column `x`, row `y` hits a pixel that is on.
    pub open spec fn collides(self, x: int, y: int, value: bool) -> bool {
        self.pixel(x, y) && value
    }

    /// The display after the sprite `rows` has been drawn with its top left
    /// corner at column `left`, row `top`: every cell of the grid on which the
    /// sprite has a set bit is flipped, the part of the sprite beyond the right
    /// or the bottom edge is dropped, and the display is dirty if the sprite
    /// has any row.
    pub open spec fn with_sprite(self, rows: Seq<u8>, left: int, top: int) -> DisplayView {
        DisplayView {
            pixels: Seq::new(
                ORIGINAL_HEIGHT as nat,
                |y: int|
                    Seq::new(
                        ORIGINAL_WIDTH as nat,
                        |x: int| self.pixel(x, y) ^ sprite_covers(rows, left, top, x, y),
                    ),
            ),
            changed: self.changed || rows.len() > 0,
        }
    }

    /// Whether the sprite `rows`, drawn at column `left`, row `top`, has a set
    /// bit on a cell of the grid whose pixel is on.
    pub open spec fn sprite_hits(self, rows: Seq<u8>, left: int, top: int, x: int, y: int) -> bool {
        &&& 0 <= x < ORIGINAL_WIDTH
        &&& 0 <= y < ORIGINAL_HEIGHT
        &&& self.pixel(x, y)
        &&& sprite_covers(rows, left, top, x, y)
    }

    /// Whether drawing the sprite `rows` at column `left`, row `top` turns any
    /// pixel off.
    pub open spec fn sprite_collides(self, rows: Seq<u8>, left: int, top: int) -> bool {
        exists|x: int, y: int| #[trigger] self.sprite_hits(rows, left, top, x, y)
    }

    /// The display after `value` has been drawn at column `x`, row `y`: that
    /// pixel is flipped where `value` is set, and the display is dirty.
    pub open spec fn with_pixel(self, x: int, y: int, value: bool) -> DisplayView {
        DisplayView {
            pixels: self.pixels.update(y, self.pixels[y].update(x, self.pixel(x, y) ^ value)),
            changed: true,
        }
    }
}

/// Monochrome pixel grid with a dirty flag.
pub struct Display {
    pub pixels: [[bool; 64]; 32],
    pub changed: bool,
}

impl View for Display {
    type V = DisplayView;

    open spec fn view(&self) -> DisplayView {
        DisplayView {
            pixels: Seq::new(ORIGINAL_HEIGHT as nat, |y: int| self.pixels[y]@),
            changed: self.changed,
        }
    }
}

impl Display {
    /// Every display has the full grid.
    pub proof fn lemma_wf(&self)
        ensures
            self@.wf(),
    {
    }

    /// A blank display, dirty so that the first frame is rendered.
    pub fn new() -> (display: Self)
        ensures
            display@ == DisplayView::blank(),
    {
        let display = Self { pixels: [[false; 64]; 32], changed: true };
        assert(display@.pixels =~~= DisplayView::blank().pixels);
        display
    }

    /// Turns every pixel off and marks the display dirty.
    pub fn clear(&mut self)
        ensures
            final(self)@ == DisplayView::blank(),
    {
        let mut y: usize = 0;
        while y < ORIGINAL_HEIGHT
            invariant
                y <= ORIGINAL_HEIGHT,
                forall|r: int, c: int|
                    0 <= r < y && 0 <= c < ORIGINAL_WIDTH ==> self.pixels[r][c] == false,
            decreases ORIGINAL_HEIGHT - y,
        {
            self.pixels[y] = [false; 64];
            y += 1;
        }
        self.changed = true;
        assert(self@.pixels =~~= DisplayView::blank().pixels);
    }

    /// Draws one sprite bit at column `x`, row `y` by exclusive-or, marks the
    /// display dirty, and reports whether a pixel that was on received a set
    /// bit.
    pub fn draw_pixel(&mut self, x: usize, y: usize, value: bool) -> (collision: bool)
        requires
            x < ORIGINAL_WIDTH,
            y < ORIGINAL_HEIGHT,
        ensures
            collision == old(self)@.collides(x as int, y as int, value),
            final(self)@ == old(self)@.with_pixel(x as int, y as int, value),
    {
        let collision = self.pixels[y][x] && value;
        self.pixels[y][x] ^= value;
        self.changed = true;
        assert(self@.pixels =~~= old(self)@.with_pixel(x as int, y as int, value).pixels);
        collision
    }
}

} // verus!
