//! A font as the rasterizer delivers it, and what can be wrong with it.

use vstd::prelude::*;
use crate::geometry::AtlasRect;

verus! {

/// First codepoint of the printable range that every font has to cover.
pub const FIRST_PRINTABLE: u32 = 0x20;

/// Last codepoint of the printable range that every font has to cover.
pub const LAST_PRINTABLE: u32 = 0x7E;

/// One rasterized glyph: a row-major coverage bitmap of `width * height`
/// bytes, where its top-left corner lies relative to the pen (`left` to the
/// right, `top` downwards from the top of the line), and how far the pen
/// moves after it.
#[derive(Debug)]
pub struct RasterGlyph {
    pub codepoint: u32,
    pub width: u32,
    pub height: u32,
    pub left: i32,
    pub top: i32,
    pub advance: u32,
    pub coverage: Vec<u8>,
}

/// A font rasterized at one pixel size.
#[derive(Debug)]
pub struct RasterFont {
    pub pixel_size: u32,
    pub line_height: u32,
    pub glyphs: Vec<RasterGlyph>,
}

/// What the atlas records of a glyph: where its bitmap lies in the atlas,
/// where the bitmap goes relative to the pen, and the pen's advance.
#[derive(Clone, Copy, Debug, PartialEq, Eq, Structural)]
pub struct Glyph {
    pub codepoint: u32,
    pub uv: AtlasRect,
    pub left: i32,
    pub top: i32,
    pub advance: u32,
}

/// Why a font was not loaded.
#[derive(Clone, Copy, Debug, PartialEq, Eq, Structural)]
pub enum FontError {
    /// The pixel size is zero.
    ZeroPixelSize,
    /// The glyph at `index` has a bitmap whose length is not its width times
    /// its height.
    MalformedGlyph { index: usize },
    /// Two glyphs claim `codepoint`.
    DuplicateGlyph { codepoint: u32 },
    /// The printable `codepoint` has no glyph.
    MissingGlyph { codepoint: u32 },
    /// The glyphs do not fit into an atlas of the largest size.
    AtlasTooLarge,
}

/// Whether `codepoint` belongs to the printable range.
pub open spec fn is_printable(codepoint: int) -> bool {
    FIRST_PRINTABLE <= codepoint <= LAST_PRINTABLE
}

impl RasterGlyph {
    /// Whether the bitmap has one byte per texel.
    pub open spec fn well_formed(self) -> bool {
        self.coverage@.len() == self.width * self.height
    }

    /// The coverage at column `dx` of row `dy`.
    pub open spec fn coverage_at(self, dx: int, dy: int) -> u8 {
        self.coverage@[dy * self.width + dx]
    }
}

/// Whether the glyph at `j` claims a codepoint that an earlier glyph has.
pub open spec fn repeats(glyphs: Seq<RasterGlyph>, j: int) -> bool {
    exists|i: int| 0 <= i < j && #[trigger] glyphs[i].codepoint == glyphs[j].codepoint
}

/// Whether some glyph of the first `n` has the codepoint.
pub open spec fn has_glyph(glyphs: Seq<RasterGlyph>, n: int, codepoint: int) -> bool {
    exists|i: int| 0 <= i < n && #[trigger] glyphs[i].codepoint == codepoint
}

impl RasterFont {
    /// Every bitmap has one byte per texel.
    pub open spec fn all_well_formed(self) -> bool {
        forall|i: int| 0 <= i < self.glyphs@.len() ==> (#[trigger] self.glyphs@[i]).well_formed()
    }

    /// No codepoint has two glyphs.
    pub open spec fn all_distinct(self) -> bool {
        forall|j: int| 0 <= j < self.glyphs@.len() ==> !#[trigger] repeats(self.glyphs@, j)
    }

    /// Every printable codepoint has a glyph.
    pub open spec fn covers_printable(self) -> bool {
        forall|c: int|
            is_printable(c) ==> #[trigger] has_glyph(self.glyphs@, self.glyphs@.len() as int, c)
    }
}

} // verus!
