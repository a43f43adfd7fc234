//! Shelf packing: where each glyph bitmap goes in the atlas.
//!
//! Texel `(0, 0)` is reserved as a solid texel for untextured fills. The
//! bitmaps follow from left to right in the order of the font, a gap of one
//! texel between neighbours; a bitmap that does not fit on the current shelf
//! opens the next one below it.

use vstd::prelude::*;
use crate::font::RasterGlyph;
use crate::geometry::AtlasRect;

verus! {

/// Largest width and height of an atlas.
pub const MAX_ATLAS_DIM: u32 = 8192;

/// Smallest width of an atlas.
pub const MIN_ATLAS_WIDTH: u32 = 256;

/// Empty texels between two neighbouring bitmaps.
pub const ATLAS_GAP: u32 = 1;

/// The packer's cursor: the next free column of the current shelf, the
/// shelf's top row, and the height of the tallest bitmap on it.
pub struct Shelf {
    pub x: int,
    pub y: int,
    pub h: int,
}

/// The wider of the smallest atlas width and the widest of the first `n`
/// bitmaps.
pub open spec fn width_upto(glyphs: Seq<RasterGlyph>, n: int) -> int
    decreases n,
{
    if n <= 0 {
        MIN_ATLAS_WIDTH as int
    } else {
        let rest = width_upto(glyphs, n - 1);
        if glyphs[n - 1].width > rest {
            glyphs[n - 1].width as int
        } else {
            rest
        }
    }
}

/// The width of the atlas for these glyphs.
pub open spec fn atlas_width(glyphs: Seq<RasterGlyph>) -> int {
    width_upto(glyphs, glyphs.len() as int)
}

/// The cursor behind the solid texel.
pub open spec fn shelf_start() -> Shelf {
    Shelf { x: 1 + ATLAS_GAP, y: 0, h: 1 }
}

/// Whether a bitmap of width `w` has to open a new shelf.
pub open spec fn wraps(shelf: Shelf, w: int, width: int) -> bool {
    shelf.x + w > width
}

/// Where a bitmap of width `w` goes when the cursor is `shelf`.
pub open spec fn slot_on(shelf: Shelf, w: int, width: int) -> (int, int) {
    if wraps(shelf, w, width) {
        (0, shelf.y + shelf.h + ATLAS_GAP)
    } else {
        (shelf.x, shelf.y)
    }
}

/// The cursor after a bitmap of `w` by `h` texels.
pub open spec fn shelf_step(shelf: Shelf, w: int, h: int, width: int) -> Shelf {
    if wraps(shelf, w, width) {
        Shelf { x: w + ATLAS_GAP, y: shelf.y + shelf.h + ATLAS_GAP, h }
    } else {
        Shelf { x: shelf.x + w + ATLAS_GAP, y: shelf.y, h: if h > shelf.h { h } else { shelf.h } }
    }
}

/// The cursor after the first `n` bitmaps.
pub open spec fn shelf_after(glyphs: Seq<RasterGlyph>, width: int, n: int) -> Shelf
    decreases n,
{
    if n <= 0 {
        shelf_start()
    } else {
        shelf_step(
            shelf_after(glyphs, width, n - 1),
            glyphs[n - 1].width as int,
            glyphs[n - 1].height as int,
            width,
        )
    }
}

/// The rows that the solid texel and the first `n` bitmaps occupy.
pub open spec fn height_upto(glyphs: Seq<RasterGlyph>, width: int, n: int) -> int {
    let shelf = shelf_after(glyphs, width, n);
    shelf.y + shelf.h
}

/// The height of the atlas for these glyphs.
pub open spec fn atlas_height(glyphs: Seq<RasterGlyph>) -> int {
    height_upto(glyphs, atlas_width(glyphs), glyphs.len() as int)
}

/// Whether the glyphs fit into an atlas of the largest size.
pub open spec fn fits_atlas(glyphs: Seq<RasterGlyph>) -> bool {
    atlas_width(glyphs) <= MAX_ATLAS_DIM && atlas_height(glyphs) <= MAX_ATLAS_DIM
}

/// The rectangle of the bitmap at index `i` in an atlas of the given width.
/// It is meant for glyphs that fit the atlas.
pub open spec fn slot_in(glyphs: Seq<RasterGlyph>, width: int, i: int) -> AtlasRect {
    let at = slot_on(shelf_after(glyphs, width, i), glyphs[i].width as int, width);
    AtlasRect { x: at.0 as u32, y: at.1 as u32, w: glyphs[i].width, h: glyphs[i].height }
}

/// The rectangle of the bitmap at index `i`.
pub open spec fn slot(glyphs: Seq<RasterGlyph>, i: int) -> AtlasRect {
    slot_in(glyphs, atlas_width(glyphs), i)
}

/// The atlas is never narrower than its smallest width, and more glyphs
/// never make it narrower.
pub proof fn lemma_width_grows(glyphs: Seq<RasterGlyph>, m: int, n: int)
    requires
        m <= n,
    ensures
        MIN_ATLAS_WIDTH <= width_upto(glyphs, m) <= width_upto(glyphs, n),
    decreases n,
{
    if n > 0 {
        if m < n {
            lemma_width_grows(glyphs, m, n - 1);
        } else {
            lemma_width_grows(glyphs, m - 1, n - 1);
        }
    }
}

/// The atlas is at least as wide as each of the bitmaps.
pub proof fn lemma_width_holds(glyphs: Seq<RasterGlyph>, n: int, i: int)
    requires
        0 <= i < n,
    ensures
        glyphs[i].width <= width_upto(glyphs, n),
{
    lemma_width_grows(glyphs, i + 1, n);
}

/// The cursor stays right of the solid texel's column and never moves up.
pub proof fn lemma_shelf_bounds(glyphs: Seq<RasterGlyph>, width: int, n: int)
    ensures
        shelf_after(glyphs, width, n).x >= 1,
        shelf_after(glyphs, width, n).y >= 0,
        shelf_after(glyphs, width, n).h >= 0,
        height_upto(glyphs, width, n) >= 1,
    decreases n,
{
    if n > 0 {
        lemma_shelf_bounds(glyphs, width, n - 1);
    }
}

/// The occupied rows never shrink as more bitmaps are placed.
pub proof fn lemma_height_grows(glyphs: Seq<RasterGlyph>, width: int, m: int, n: int)
    requires
        m <= n,
    ensures
        height_upto(glyphs, width, m) <= height_upto(glyphs, width, n),
    decreases n,
{
    if n > 0 {
        lemma_shelf_bounds(glyphs, width, n - 1);
        if m < n {
            lemma_height_grows(glyphs, width, m, n - 1);
        } else {
            lemma_height_grows(glyphs, width, m - 1, n - 1);
        }
    }
}

/// Where a bitmap lies relative to the cursor that follows the first `n`
/// bitmaps, `n` past its own index: it ends above the cursor's shelf, or on
/// that shelf left of the cursor; it reaches neither below the occupied rows
/// nor right of the atlas nor over the solid texel.
pub proof fn lemma_slot_behind_cursor(glyphs: Seq<RasterGlyph>, width: int, n: int, i: int)
    requires
        0 <= i < n <= glyphs.len(),
        width_upto(glyphs, glyphs.len() as int) <= width <= MAX_ATLAS_DIM,
        height_upto(glyphs, width, n) <= MAX_ATLAS_DIM,
    ensures
        ({
            let r = slot_in(glyphs, width, i);
            let shelf = shelf_after(glyphs, width, n);
            &&& r.x + r.w <= width
            &&& r.y + r.h <= shelf.y + shelf.h
            &&& (r.y + r.h <= shelf.y || r.x + r.w <= shelf.x)
            &&& !r.covers(0, 0)
            &&& r.w == glyphs[i].width
            &&& r.h == glyphs[i].height
        }),
    decreases n,
{
    let before = shelf_after(glyphs, width, n - 1);
    lemma_shelf_bounds(glyphs, width, n - 1);
    lemma_height_grows(glyphs, width, n - 1, n);
    if i < n - 1 {
        lemma_slot_behind_cursor(glyphs, width, n - 1, i);
    } else {
        lemma_width_holds(glyphs, glyphs.len() as int, i);
        let at = slot_on(before, glyphs[i].width as int, width);
        assert(0 <= at.0 <= width);
        assert(0 <= at.1 <= height_upto(glyphs, width, n));
    }
}

/// No two bitmaps of glyphs that fit the atlas overlap.
pub proof fn lemma_slots_apart(glyphs: Seq<RasterGlyph>, width: int, i: int, j: int)
    requires
        0 <= i < j < glyphs.len(),
        width_upto(glyphs, glyphs.len() as int) <= width <= MAX_ATLAS_DIM,
        height_upto(glyphs, width, glyphs.len() as int) <= MAX_ATLAS_DIM,
    ensures
        slot_in(glyphs, width, i).apart(slot_in(glyphs, width, j)),
{
    lemma_height_grows(glyphs, width, j, glyphs.len() as int);
    lemma_height_grows(glyphs, width, j + 1, glyphs.len() as int);
    lemma_shelf_bounds(glyphs, width, j);
    lemma_slot_behind_cursor(glyphs, width, j, i);
    lemma_slot_behind_cursor(glyphs, width, j + 1, j);
}

} // verus!
