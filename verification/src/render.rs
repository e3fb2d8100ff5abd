//! The framebuffer raster: each CGA cell becomes an 8×8 glyph from the
//! legacy 8×8 font, colored from the fixed 16-color CGA palette. The raster
//! is a 640×200 grid of palette indices; the window sink only has to paint
//! it.

use vstd::prelude::*;
use crate::cga::{CGA_CELLS, CGA_COLS, CGA_ROWS};

verus! {

/// Raster width in pixels.
pub const FRAME_WIDTH: usize = 640;

/// Raster height in pixels.
pub const FRAME_HEIGHT: usize = 200;

/// The glyph of a codepoint in the legacy 8×8 font: eight row bytes.
pub uninterp spec fn glyph_of(ch: u8) -> Seq<u8>;

/// Relies on font8x8's `legacy::BASIC_LEGACY` table: a constant of 128
/// rows of eight bytes each, so the glyph depends on the codepoint alone.
#[verifier::external_body]
fn font_glyph(ch: u8) -> (r: [u8; 8])
    requires
        ch < 128,
    ensures
        r@ == glyph_of(ch),
{
    font8x8::legacy::BASIC_LEGACY[ch as usize]
}

/// One glyph row byte of a codepoint: from the 128-entry font below 128,
/// blank above it.
pub open spec fn glyph_row(ch: u8, y: int) -> u8 {
    if ch < 128 {
        glyph_of(ch)[y]
    } else {
        0u8
    }
}

/// The palette index of the raster pixel at column `px`, row `py`: the cell
/// under the pixel supplies codepoint and attribute; the glyph bit selects
/// foreground (attribute bits 0..3) or background (bits 4..6); a set blink
/// flag (bit 7) suppresses the foreground.
pub open spec fn pixel_at(cells: Seq<u16>, px: int, py: int) -> u8 {
    let cell = cells[(py / 8) * (CGA_COLS as int) + px / 8];
    let ch = cell as u8;
    let attr = (cell >> 8) as u8;
    let row = glyph_row(ch, py % 8);
    let fg = attr & 0x0F;
    let bg = (attr >> 4) & 0x07;
    let blink = attr & 0x80 != 0;
    if !blink && (row >> ((7 - px % 8) as u8)) & 1 == 1 {
        fg
    } else {
        bg
    }
}

/// Rasterize the 80×25 cell buffer into a 640×200 grid of palette indices,
/// row-major.
pub fn render_frame(cells: &Vec<u16>) -> (fb: Vec<u8>)
    requires
        cells@.len() == CGA_CELLS,
    ensures
        fb@.len() == FRAME_WIDTH * FRAME_HEIGHT,
        forall|px: int, py: int|
            0 <= px < FRAME_WIDTH && 0 <= py < FRAME_HEIGHT ==> fb@[py * FRAME_WIDTH + px]
                == pixel_at(cells@, px, py),
{
    let mut fb: Vec<u8> = Vec::new();
    let mut py: usize = 0;
    while py < FRAME_HEIGHT
        invariant
            cells@.len() == CGA_CELLS,
            py <= FRAME_HEIGHT,
            fb@.len() == py * FRAME_WIDTH,
            forall|x: int, y: int|
                0 <= x < FRAME_WIDTH && 0 <= y < py ==> fb@[y * FRAME_WIDTH + x] == pixel_at(
                    cells@,
                    x,
                    y,
                ),
        decreases FRAME_HEIGHT - py,
    {
        let mut px: usize = 0;
        while px < FRAME_WIDTH
            invariant
                cells@.len() == CGA_CELLS,
                py < FRAME_HEIGHT,
                px <= FRAME_WIDTH,
                fb@.len() == py * FRAME_WIDTH + px,
                forall|x: int, y: int|
                    0 <= x < FRAME_WIDTH && 0 <= y < py ==> fb@[y * FRAME_WIDTH + x] == pixel_at(
                        cells@,
                        x,
                        y,
                    ),
                forall|x: int| 0 <= x < px ==> fb@[py * FRAME_WIDTH + x] == pixel_at(cells@, x, py as int),
            decreases FRAME_WIDTH - px,
        {
            let cell_index: usize = (py / 8) * CGA_COLS + px / 8;
            assert(cell_index < CGA_CELLS) by {
                assert(py / 8 < CGA_ROWS) by (nonlinear_arith)
                    requires
                        py < FRAME_HEIGHT,
                        FRAME_HEIGHT == 200,
                        CGA_ROWS == 25,
                ;
                assert(px / 8 < CGA_COLS) by (nonlinear_arith)
                    requires
                        px < FRAME_WIDTH,
                        FRAME_WIDTH == 640,
                        CGA_COLS == 80,
                ;
                assert((py / 8) * CGA_COLS + px / 8 < CGA_ROWS * CGA_COLS) by (nonlinear_arith)
                    requires
                        py / 8 < CGA_ROWS,
                        px / 8 < CGA_COLS,
                        CGA_ROWS == 25,
                        CGA_COLS == 80,
                ;
            }
            let cell: u16 = cells[cell_index];
            let ch: u8 = cell as u8;
            let attr: u8 = (cell >> 8) as u8;
            let row: u8 = if ch < 128 {
                let g = font_glyph(ch);
                g[py % 8]
            } else {
                0
            };
            let fg: u8 = attr & 0x0F;
            let bg: u8 = (attr >> 4) & 0x07;
            let blink: bool = attr & 0x80 != 0;
            let shift: u8 = (7 - px % 8) as u8;
            let bit: u8 = (row >> shift) & 1;
            let color: u8 = if !blink && bit == 1 {
                fg
            } else {
                bg
            };
            fb.push(color);
            px += 1;
        }
        py += 1;
    }
    fb
}

/// The fixed 16-color CGA palette as (red, green, blue).
pub open spec fn palette_spec(idx: u8) -> (u8, u8, u8) {
    if idx == 0 {
        (0u8, 0u8, 0u8)
    } else if idx == 1 {
        (0u8, 0u8, 170u8)
    } else if idx == 2 {
        (0u8, 170u8, 0u8)
    } else if idx == 3 {
        (0u8, 170u8, 170u8)
    } else if idx == 4 {
        (170u8, 0u8, 0u8)
    } else if idx == 5 {
        (170u8, 0u8, 170u8)
    } else if idx == 6 {
        (170u8, 85u8, 0u8)
    } else if idx == 7 {
        (170u8, 170u8, 170u8)
    } else if idx == 8 {
        (85u8, 85u8, 85u8)
    } else if idx == 9 {
        (85u8, 85u8, 255u8)
    } else if idx == 10 {
        (85u8, 255u8, 85u8)
    } else if idx == 11 {
        (85u8, 255u8, 255u8)
    } else if idx == 12 {
        (255u8, 85u8, 85u8)
    } else if idx == 13 {
        (255u8, 85u8, 255u8)
    } else if idx == 14 {
        (255u8, 255u8, 85u8)
    } else {
        (255u8, 255u8, 255u8)
    }
}

/// Look up one palette entry.
pub fn palette_rgb(idx: u8) -> (c: (u8, u8, u8))
    ensures
        c == palette_spec(idx),
{
    if idx == 0 {
        (0, 0, 0)
    } else if idx == 1 {
        (0, 0, 170)
    } else if idx == 2 {
        (0, 170, 0)
    } else if idx == 3 {
        (0, 170, 170)
    } else if idx == 4 {
        (170, 0, 0)
    } else if idx == 5 {
        (170, 0, 170)
    } else if idx == 6 {
        (170, 85, 0)
    } else if idx == 7 {
        (170, 170, 170)
    } else if idx == 8 {
        (85, 85, 85)
    } else if idx == 9 {
        (85, 85, 255)
    } else if idx == 10 {
        (85, 255, 85)
    } else if idx == 11 {
        (85, 255, 255)
    } else if idx == 12 {
        (255, 85, 85)
    } else if idx == 13 {
        (255, 85, 255)
    } else if idx == 14 {
        (255, 255, 85)
    } else {
        (255, 255, 255)
    }
}

} // verus!
