//! The font atlas: one coverage bitmap that holds every glyph of a font, and
//! the table that says where each glyph lies in it.

use vstd::prelude::*;
use std::collections::{HashMap, HashSet};
use crate::font::{
    has_glyph, is_printable, repeats, FontError, Glyph, RasterFont, RasterGlyph, FIRST_PRINTABLE,
    LAST_PRINTABLE,
};
use crate::geometry::AtlasRect;
use crate::pack::{
    atlas_height, atlas_width, fits_atlas, height_upto, lemma_height_grows, lemma_shelf_bounds,
    lemma_slot_behind_cursor, lemma_slots_apart, lemma_width_grows, lemma_width_holds, shelf_after,
    slot_in, width_upto, Shelf, ATLAS_GAP, MAX_ATLAS_DIM, MIN_ATLAS_WIDTH,
};

verus! {

/// Coverage of the solid texel at `(0, 0)`.
pub const SOLID_COVERAGE: u8 = 255;

/// The mathematical content of an atlas: its size in texels, the row-major
/// coverage bitmap, the glyph table keyed by codepoint, and the metrics that
/// layout needs.
#[verifier::ext_equal]
pub struct AtlasView {
    pub width: u32,
    pub height: u32,
    pub coverage: Seq<u8>,
    pub glyphs: Map<u32, Glyph>,
    pub line_height: u32,
    pub fallback_advance: u32,
}

/// What the table records for the glyph at index `i`.
pub open spec fn entry(glyphs: Seq<RasterGlyph>, width: int, i: int) -> Glyph {
    Glyph {
        codepoint: glyphs[i].codepoint,
        uv: slot_in(glyphs, width, i),
        left: glyphs[i].left,
        top: glyphs[i].top,
        advance: glyphs[i].advance,
    }
}

/// The glyph table of the first `n` glyphs.
pub open spec fn table_upto(glyphs: Seq<RasterGlyph>, width: int, n: int) -> Map<u32, Glyph>
    decreases n,
{
    if n <= 0 {
        Map::empty()
    } else {
        table_upto(glyphs, width, n - 1).insert(
            glyphs[n - 1].codepoint,
            entry(glyphs, width, n - 1),
        )
    }
}

/// The coverage of texel `(u, v)` once the solid texel and the first `n`
/// bitmaps are painted on an empty canvas.
pub open spec fn painted_upto(glyphs: Seq<RasterGlyph>, width: int, n: int, u: int, v: int) -> u8
    decreases n,
{
    if n <= 0 {
        if u == 0 && v == 0 {
            SOLID_COVERAGE
        } else {
            0
        }
    } else {
        let r = slot_in(glyphs, width, n - 1);
        if r.covers(u, v) {
            glyphs[n - 1].coverage_at(u - r.x, v - r.y)
        } else {
            painted_upto(glyphs, width, n - 1, u, v)
        }
    }
}

/// The texel `(u, v)` of a row-major bitmap of the given width.
pub open spec fn texel(coverage: Seq<u8>, width: int, u: int, v: int) -> u8 {
    coverage[v * width + u]
}

impl RasterFont {
    /// Whether the font can be loaded: a positive pixel size, one byte per
    /// texel in every bitmap, one glyph per codepoint, a glyph for every
    /// printable codepoint, and an atlas within the largest size.
    pub open spec fn loadable(self) -> bool {
        &&& self.pixel_size > 0
        &&& self.all_well_formed()
        &&& self.all_distinct()
        &&& self.covers_printable()
        &&& fits_atlas(self.glyphs@)
    }

    /// Whether `error` is the first thing wrong with the font, in the order
    /// in which the variants are declared.
    pub open spec fn fails_with(self, error: FontError) -> bool {
        let glyphs = self.glyphs@;
        match error {
            FontError::ZeroPixelSize => self.pixel_size == 0,
            FontError::MalformedGlyph { index } => {
                &&& self.pixel_size > 0
                &&& index < glyphs.len()
                &&& !glyphs[index as int].well_formed()
                &&& forall|i: int| 0 <= i < index ==> (#[trigger] glyphs[i]).well_formed()
            },
            FontError::DuplicateGlyph { codepoint } => {
                &&& self.pixel_size > 0
                &&& self.all_well_formed()
                &&& exists|j: int|
                    {
                        &&& 0 <= j < glyphs.len()
                        &&& #[trigger] repeats(glyphs, j)
                        &&& glyphs[j].codepoint == codepoint
                        &&& forall|k: int| 0 <= k < j ==> !#[trigger] repeats(glyphs, k)
                    }
            },
            FontError::MissingGlyph { codepoint } => {
                &&& self.pixel_size > 0
                &&& self.all_well_formed()
                &&& self.all_distinct()
                &&& is_printable(codepoint as int)
                &&& !has_glyph(glyphs, glyphs.len() as int, codepoint as int)
                &&& forall|c: int|
                    is_printable(c) && c < codepoint ==> #[trigger] has_glyph(
                        glyphs,
                        glyphs.len() as int,
                        c,
                    )
            },
            FontError::AtlasTooLarge => {
                &&& self.pixel_size > 0
                &&& self.all_well_formed()
                &&& self.all_distinct()
                &&& self.covers_printable()
                &&& !fits_atlas(glyphs)
            },
        }
    }

    /// The atlas that a loadable font gives.
    pub open spec fn atlas(self) -> AtlasView {
        let glyphs = self.glyphs@;
        let width = atlas_width(glyphs);
        let height = atlas_height(glyphs);
        AtlasView {
            width: width as u32,
            height: height as u32,
            coverage: Seq::new(
                (width * height) as nat,
                |i: int| painted_upto(glyphs, width, glyphs.len() as int, i % width, i / width),
            ),
            glyphs: table_upto(glyphs, width, glyphs.len() as int),
            line_height: self.line_height,
            fallback_advance: self.pixel_size / 2,
        }
    }
}

impl AtlasView {
    /// The atlas before any font is loaded: the solid texel alone.
    pub open spec fn blank() -> AtlasView {
        AtlasView {
            width: 1,
            height: 1,
            coverage: seq![SOLID_COVERAGE],
            glyphs: Map::empty(),
            line_height: 0,
            fallback_advance: 0,
        }
    }

    /// An atlas is well formed when the bitmap has one byte per texel, the
    /// solid texel is solid, every glyph is filed under its own codepoint and
    /// lies inside the atlas and off the solid texel, and no two glyph
    /// rectangles overlap.
    pub open spec fn wf(self) -> bool {
        &&& 1 <= self.width <= MAX_ATLAS_DIM
        &&& 1 <= self.height <= MAX_ATLAS_DIM
        &&& self.coverage.len() == self.width * self.height
        &&& self.coverage[0] == SOLID_COVERAGE
        &&& forall|c: u32| #[trigger]
            self.glyphs.contains_key(c) ==> {
                &&& self.glyphs[c].codepoint == c
                &&& self.glyphs[c].uv.within(self.width as int, self.height as int)
                &&& !self.glyphs[c].uv.covers(0, 0)
            }
        &&& forall|c: u32, d: u32|
            #![trigger self.glyphs[c], self.glyphs[d]]
            self.glyphs.contains_key(c) && self.glyphs.contains_key(d) && c != d
                ==> self.glyphs[c].uv.apart(self.glyphs[d].uv)
    }

    /// The glyph of a codepoint, if the atlas has one.
    pub open spec fn glyph(self, codepoint: u32) -> Option<Glyph> {
        if self.glyphs.contains_key(codepoint) {
            Some(self.glyphs[codepoint])
        } else {
            None
        }
    }

    /// Whether every printable codepoint has a glyph.
    pub open spec fn covers_printable(self) -> bool {
        forall|c: u32| is_printable(c as int) ==> #[trigger] self.glyphs.contains_key(c)
    }

    /// The bitmap as a texture of four bytes per texel, each of them the
    /// texel's coverage.
    pub open spec fn texture(self) -> Seq<u8> {
        Seq::new(4 * self.coverage.len(), |i: int| self.coverage[i / 4])
    }
}

/// The table of the first `n` glyphs holds exactly their codepoints, and,
/// where no codepoint repeats, files each glyph's entry under its codepoint.
pub proof fn lemma_table_upto(glyphs: Seq<RasterGlyph>, width: int, n: int)
    requires
        0 <= n <= glyphs.len(),
        forall|j: int| 0 <= j < n ==> !#[trigger] repeats(glyphs, j),
    ensures
        forall|c: u32| #[trigger]
            table_upto(glyphs, width, n).contains_key(c) <==> has_glyph(glyphs, n, c as int),
        forall|i: int|
            0 <= i < n ==> #[trigger] table_upto(glyphs, width, n)[glyphs[i].codepoint] == entry(
                glyphs,
                width,
                i,
            ),
    decreases n,
{
    if n > 0 {
        lemma_table_upto(glyphs, width, n - 1);
        let before = table_upto(glyphs, width, n - 1);
        let now = table_upto(glyphs, width, n);
        let last = glyphs[n - 1].codepoint;
        assert forall|c: u32| #[trigger] now.contains_key(c) <==> has_glyph(glyphs, n, c as int) by {
            if has_glyph(glyphs, n, c as int) {
                let i = choose|i: int| 0 <= i < n && #[trigger] glyphs[i].codepoint == c as int;
                if i < n - 1 {
                    assert(has_glyph(glyphs, n - 1, c as int));
                }
            }
            if now.contains_key(c) {
                if c == last {
                    assert(glyphs[n - 1].codepoint == c as int);
                } else {
                    assert(has_glyph(glyphs, n - 1, c as int));
                    let i = choose|i: int|
                        0 <= i < n - 1 && #[trigger] glyphs[i].codepoint == c as int;
                    assert(glyphs[i].codepoint == c as int);
                }
            }
        }
        assert forall|i: int| 0 <= i < n implies #[trigger] now[glyphs[i].codepoint] == entry(
            glyphs,
            width,
            i,
        ) by {
            if i < n - 1 {
                if glyphs[i].codepoint == last {
                    assert(repeats(glyphs, n - 1));
                }
            }
        }
    }
}

/// Nothing is painted over the solid texel.
pub proof fn lemma_solid_texel(glyphs: Seq<RasterGlyph>, width: int, n: int)
    requires
        0 <= n <= glyphs.len(),
        width_upto(glyphs, glyphs.len() as int) <= width <= MAX_ATLAS_DIM,
        height_upto(glyphs, width, n) <= MAX_ATLAS_DIM,
    ensures
        painted_upto(glyphs, width, n, 0, 0) == SOLID_COVERAGE,
    decreases n,
{
    if n > 0 {
        lemma_height_grows(glyphs, width, n - 1, n);
        lemma_solid_texel(glyphs, width, n - 1);
        lemma_slot_behind_cursor(glyphs, width, n, n - 1);
    }
}

/// A loadable font gives a well-formed atlas that holds a glyph for every
/// printable codepoint.
pub proof fn lemma_atlas_wf(font: RasterFont)
    requires
        font.loadable(),
    ensures
        font.atlas().wf(),
        font.atlas().covers_printable(),
        font.atlas().width == atlas_width(font.glyphs@),
        font.atlas().height == atlas_height(font.glyphs@),
{
    let glyphs = font.glyphs@;
    let n = glyphs.len() as int;
    let width = atlas_width(glyphs);
    let height = atlas_height(glyphs);
    let atlas = font.atlas();
    lemma_width_grows(glyphs, 0, n);
    lemma_shelf_bounds(glyphs, width, n);
    lemma_table_upto(glyphs, width, n);
    lemma_solid_texel(glyphs, width, n);
    assert(width * height >= 1) by (nonlinear_arith)
        requires
            width >= 1,
            height >= 1,
    ;
    assert(atlas.coverage[0] == SOLID_COVERAGE) by {
        assert(0int % width == 0 && 0int / width == 0);
    }
    assert forall|c: u32| #[trigger] atlas.glyphs.contains_key(c) implies {
        &&& atlas.glyphs[c].codepoint == c
        &&& atlas.glyphs[c].uv.within(atlas.width as int, atlas.height as int)
        &&& !atlas.glyphs[c].uv.covers(0, 0)
    } by {
        let i = choose|i: int| 0 <= i < n && #[trigger] glyphs[i].codepoint == c as int;
        assert(atlas.glyphs[glyphs[i].codepoint] == entry(glyphs, width, i));
        lemma_slot_behind_cursor(glyphs, width, n, i);
    }
    assert forall|c: u32, d: u32|
        #![trigger atlas.glyphs[c], atlas.glyphs[d]]
        atlas.glyphs.contains_key(c) && atlas.glyphs.contains_key(d) && c != d implies atlas.glyphs[c].uv.apart(
        atlas.glyphs[d].uv,
    ) by {
        let i = choose|i: int| 0 <= i < n && #[trigger] glyphs[i].codepoint == c as int;
        let j = choose|j: int| 0 <= j < n && #[trigger] glyphs[j].codepoint == d as int;
        assert(atlas.glyphs[glyphs[i].codepoint] == entry(glyphs, width, i));
        assert(atlas.glyphs[glyphs[j].codepoint] == entry(glyphs, width, j));
        if i < j {
            lemma_slots_apart(glyphs, width, i, j);
        } else {
            lemma_slots_apart(glyphs, width, j, i);
        }
    }
    assert forall|c: u32| is_printable(c as int) implies #[trigger] atlas.glyphs.contains_key(
        c,
    ) by {
        assert(has_glyph(glyphs, n, c as int));
    }
}

/// In a well-formed atlas every glyph's rectangle lies inside the bitmap,
/// and the rectangles of two different glyphs share no texel.
pub proof fn law_glyphs_in_bounds_and_apart(atlas: AtlasView, c: u32, d: u32)
    requires
        atlas.wf(),
        atlas.glyphs.contains_key(c),
        atlas.glyphs.contains_key(d),
        c != d,
    ensures
        atlas.glyphs[c].uv.x + atlas.glyphs[c].uv.w <= atlas.width,
        atlas.glyphs[c].uv.y + atlas.glyphs[c].uv.h <= atlas.height,
        atlas.glyphs[c].uv.apart(atlas.glyphs[d].uv),
        forall|u: int, v: int|
            !(atlas.glyphs[c].uv.covers(u, v) && atlas.glyphs[d].uv.covers(u, v)),
{
}

/// The texture is determined by the atlas: two textures built from one
/// atlas are the same bytes.
pub proof fn law_texture_repeats(atlas: AtlasView, first: Seq<u8>, second: Seq<u8>)
    requires
        first == atlas.texture(),
        second == atlas.texture(),
    ensures
        first == second,
        first.len() == 4 * atlas.coverage.len(),
        forall|j: int| 0 <= j < first.len() ==> #[trigger] first[j] == atlas.coverage[j / 4],
{
}

/// The font atlas. It starts out with the solid texel alone; loading a font
/// replaces its whole content.
pub struct FontAtlas {
    width: u32,
    height: u32,
    coverage: Vec<u8>,
    glyphs: HashMap<u32, Glyph>,
    line_height: u32,
    fallback_advance: u32,
}

impl View for FontAtlas {
    type V = AtlasView;

    closed spec fn view(&self) -> AtlasView {
        AtlasView {
            width: self.width,
            height: self.height,
            coverage: self.coverage@,
            glyphs: self.glyphs@,
            line_height: self.line_height,
            fallback_advance: self.fallback_advance,
        }
    }
}

/// The index of the first bitmap whose length is not its width times its
/// height.
fn first_malformed(glyphs: &Vec<RasterGlyph>) -> (found: Option<usize>)
    ensures
        match found {
            Some(index) => {
                &&& index < glyphs@.len()
                &&& !glyphs@[index as int].well_formed()
                &&& forall|i: int| 0 <= i < index ==> (#[trigger] glyphs@[i]).well_formed()
            },
            None => forall|i: int| 0 <= i < glyphs@.len() ==> (#[trigger] glyphs@[i]).well_formed(),
        },
{
    let mut i: usize = 0;
    while i < glyphs.len()
        invariant
            i <= glyphs@.len(),
            forall|k: int| 0 <= k < i ==> (#[trigger] glyphs@[k]).well_formed(),
        decreases glyphs@.len() - i,
    {
        let g = &glyphs[i];
        assert(g.width * g.height <= u64::MAX) by (nonlinear_arith)
            requires
                g.width <= u32::MAX,
                g.height <= u32::MAX,
        ;
        let texels: u64 = g.width as u64 * g.height as u64;
        if g.coverage.len() as u64 != texels {
            return Some(i);
        }
        i = i + 1;
    }
    None
}

/// The codepoint of the first glyph that claims a codepoint which an earlier
/// glyph has.
fn first_repeat(glyphs: &Vec<RasterGlyph>) -> (found: Option<u32>)
    ensures
        match found {
            Some(codepoint) => exists|j: int|
                {
                    &&& 0 <= j < glyphs@.len()
                    &&& #[trigger] repeats(glyphs@, j)
                    &&& glyphs@[j].codepoint == codepoint
                    &&& forall|k: int| 0 <= k < j ==> !#[trigger] repeats(glyphs@, k)
                },
            None => forall|j: int| 0 <= j < glyphs@.len() ==> !#[trigger] repeats(glyphs@, j),
        },
{
    let mut seen: HashSet<u32> = HashSet::new();
    let mut j: usize = 0;
    while j < glyphs.len()
        invariant
            j <= glyphs@.len(),
            forall|c: u32| #[trigger] seen@.contains(c) <==> has_glyph(glyphs@, j as int, c as int),
            forall|k: int| 0 <= k < j ==> !#[trigger] repeats(glyphs@, k),
        decreases glyphs@.len() - j,
    {
        let codepoint: u32 = glyphs[j].codepoint;
        if seen.contains(&codepoint) {
            proof {
                let i = choose|i: int|
                    0 <= i < j && #[trigger] glyphs@[i].codepoint == codepoint as int;
                assert(glyphs@[i].codepoint == glyphs@[j as int].codepoint);
                assert(repeats(glyphs@, j as int));
            }
            return Some(codepoint);
        }
        proof {
            assert(!repeats(glyphs@, j as int)) by {
                if repeats(glyphs@, j as int) {
                    let i = choose|i: int|
                        0 <= i < j && #[trigger] glyphs@[i].codepoint == glyphs@[j as int].codepoint;
                    assert(has_glyph(glyphs@, j as int, codepoint as int));
                }
            }
        }
        let ghost before = seen@;
        seen.insert(codepoint);
        proof {
            assert forall|c: u32| #[trigger] seen@.contains(c) <==> has_glyph(
                glyphs@,
                j + 1,
                c as int,
            ) by {
                if has_glyph(glyphs@, j + 1, c as int) {
                    let i = choose|i: int|
                        0 <= i < j + 1 && #[trigger] glyphs@[i].codepoint == c as int;
                    if i < j {
                        assert(has_glyph(glyphs@, j as int, c as int));
                    }
                }
                if seen@.contains(c) {
                    if c == codepoint {
                        assert(glyphs@[j as int].codepoint == c as int);
                    } else {
                        assert(before.contains(c));
                        let i = choose|i: int|
                            0 <= i < j && #[trigger] glyphs@[i].codepoint == c as int;
                        assert(glyphs@[i].codepoint == c as int);
                    }
                }
            }
        }
        j = j + 1;
    }
    None
}

/// The first printable codepoint without a glyph.
fn first_missing(glyphs: &Vec<RasterGlyph>) -> (found: Option<u32>)
    ensures
        match found {
            Some(codepoint) => {
                &&& is_printable(codepoint as int)
                &&& !has_glyph(glyphs@, glyphs@.len() as int, codepoint as int)
                &&& forall|c: int|
                    is_printable(c) && c < codepoint ==> #[trigger] has_glyph(
                        glyphs@,
                        glyphs@.len() as int,
                        c,
                    )
            },
            None => forall|c: int|
                is_printable(c) ==> #[trigger] has_glyph(glyphs@, glyphs@.len() as int, c),
        },
{
    let mut present: Vec<bool> = vec![false; 95];
    let mut i: usize = 0;
    while i < glyphs.len()
        invariant
            i <= glyphs@.len(),
            present@.len() == 95,
            forall|k: int|
                0 <= k < 95 ==> (#[trigger] present@[k] <==> has_glyph(
                    glyphs@,
                    i as int,
                    FIRST_PRINTABLE + k,
                )),
        decreases glyphs@.len() - i,
    {
        let codepoint: u32 = glyphs[i].codepoint;
        let ghost before = present@;
        if FIRST_PRINTABLE <= codepoint && codepoint <= LAST_PRINTABLE {
            present.set((codepoint - FIRST_PRINTABLE) as usize, true);
        }
        proof {
            assert forall|k: int| 0 <= k < 95 implies (#[trigger] present@[k] <==> has_glyph(
                glyphs@,
                i + 1,
                FIRST_PRINTABLE + k,
            )) by {
                let c = FIRST_PRINTABLE + k;
                if has_glyph(glyphs@, i + 1, c) {
                    let w = choose|w: int| 0 <= w < i + 1 && #[trigger] glyphs@[w].codepoint == c;
                    if w < i {
                        assert(has_glyph(glyphs@, i as int, c));
                        assert(before[k]);
                    }
                }
                if present@[k] {
                    if codepoint == c {
                        assert(glyphs@[i as int].codepoint == c);
                    } else {
                        assert(before[k]);
                        let w = choose|w: int| 0 <= w < i && #[trigger] glyphs@[w].codepoint == c;
                        assert(glyphs@[w].codepoint == c);
                    }
                }
            }
        }
        i = i + 1;
    }
    let mut k: usize = 0;
    while k < 95
        invariant
            k <= 95,
            present@.len() == 95,
            forall|m: int| 0 <= m < k ==> #[trigger] present@[m],
            forall|m: int|
                0 <= m < 95 ==> (#[trigger] present@[m] <==> has_glyph(
                    glyphs@,
                    glyphs@.len() as int,
                    FIRST_PRINTABLE + m,
                )),
        decreases 95 - k,
    {
        if !present[k] {
            let codepoint: u32 = FIRST_PRINTABLE + k as u32;
            proof {
                assert forall|c: int| is_printable(c) && c < codepoint implies #[trigger] has_glyph(
                    glyphs@,
                    glyphs@.len() as int,
                    c,
                ) by {
                    assert(present@[c - FIRST_PRINTABLE]);
                }
            }
            return Some(codepoint);
        }
        k = k + 1;
    }
    proof {
        assert forall|c: int| is_printable(c) implies #[trigger] has_glyph(
            glyphs@,
            glyphs@.len() as int,
            c,
        ) by {
            assert(present@[c - FIRST_PRINTABLE]);
        }
    }
    None
}

/// The width of the atlas for these glyphs.
fn measure_width(glyphs: &Vec<RasterGlyph>) -> (width: u32)
    ensures
        width == atlas_width(glyphs@),
{
    let mut width: u32 = MIN_ATLAS_WIDTH;
    let mut i: usize = 0;
    while i < glyphs.len()
        invariant
            i <= glyphs@.len(),
            width == width_upto(glyphs@, i as int),
        decreases glyphs@.len() - i,
    {
        if glyphs[i].width > width {
            width = glyphs[i].width;
        }
        i = i + 1;
    }
    width
}

/// Places the bitmaps on shelves. Gives each bitmap's rectangle and the
/// height of the atlas, or nothing when that height is over the largest.
fn place(glyphs: &Vec<RasterGlyph>, width: u32) -> (placed: Option<(Vec<AtlasRect>, u32)>)
    requires
        width_upto(glyphs@, glyphs@.len() as int) <= width <= MAX_ATLAS_DIM,
    ensures
        match placed {
            Some((slots, height)) => {
                &&& height == height_upto(glyphs@, width as int, glyphs@.len() as int)
                &&& height <= MAX_ATLAS_DIM
                &&& slots@.len() == glyphs@.len()
                &&& forall|i: int|
                    0 <= i < slots@.len() ==> #[trigger] slots@[i] == slot_in(
                        glyphs@,
                        width as int,
                        i,
                    )
            },
            None => height_upto(glyphs@, width as int, glyphs@.len() as int) > MAX_ATLAS_DIM,
        },
{
    let mut slots: Vec<AtlasRect> = Vec::new();
    let mut x: u32 = 1 + ATLAS_GAP;
    let mut y: u32 = 0;
    let mut h: u32 = 1;
    let mut i: usize = 0;
    while i < glyphs.len()
        invariant
            i <= glyphs@.len(),
            width_upto(glyphs@, glyphs@.len() as int) <= width <= MAX_ATLAS_DIM,
            shelf_after(glyphs@, width as int, i as int) == (Shelf { x: x as int, y: y as int, h: h as int }),
            y + h <= MAX_ATLAS_DIM,
            x <= 2 * MAX_ATLAS_DIM + 2,
            slots@.len() == i,
            forall|k: int|
                0 <= k < i ==> #[trigger] slots@[k] == slot_in(glyphs@, width as int, k),
        decreases glyphs@.len() - i,
    {
        let g = &glyphs[i];
        proof {
            lemma_width_holds(glyphs@, glyphs@.len() as int, i as int);
            lemma_height_grows(glyphs@, width as int, i + 1, glyphs@.len() as int);
        }
        if g.height > MAX_ATLAS_DIM {
            return None;
        }
        if x + g.width > width {
            if y + h + ATLAS_GAP + g.height > MAX_ATLAS_DIM {
                return None;
            }
            y = y + h + ATLAS_GAP;
            slots.push(AtlasRect { x: 0, y, w: g.width, h: g.height });
            x = g.width + ATLAS_GAP;
            h = g.height;
        } else {
            if y + g.height > MAX_ATLAS_DIM {
                return None;
            }
            slots.push(AtlasRect { x, y, w: g.width, h: g.height });
            x = x + g.width + ATLAS_GAP;
            if g.height > h {
                h = g.height;
            }
        }
        i = i + 1;
    }
    Some((slots, y + h))
}

/// Row-major indexing: a texel inside the bitmap has an index inside it.
pub proof fn lemma_texel_index(width: int, height: int, u: int, v: int)
    by (nonlinear_arith)
    requires
        0 <= u < width,
        0 <= v < height,
    ensures
        0 <= v * width + u < width * height,
        (v * width + u) % width == u,
        (v * width + u) / width == v,
{
    vstd::arithmetic::div_mod::lemma_fundamental_div_mod_converse(v * width + u, width, v, u);
}

/// Row-major indexing: different texels have different indices.
pub proof fn lemma_texel_index_unique(width: int, u: int, v: int, s: int, t: int)
    requires
        0 <= u < width,
        0 <= s < width,
        v * width + u == t * width + s,
    ensures
        u == s,
        v == t,
{
    vstd::arithmetic::div_mod::lemma_fundamental_div_mod_converse(v * width + u, width, v, u);
    vstd::arithmetic::div_mod::lemma_fundamental_div_mod_converse(t * width + s, width, t, s);
}

/// Copies one bitmap onto the canvas at its rectangle.
fn blit(canvas: &mut Vec<u8>, width: u32, height: u32, glyph: &RasterGlyph, at: AtlasRect)
    requires
        1 <= width <= MAX_ATLAS_DIM,
        1 <= height <= MAX_ATLAS_DIM,
        old(canvas)@.len() == width * height,
        glyph.well_formed(),
        at.w == glyph.width,
        at.h == glyph.height,
        at.within(width as int, height as int),
    ensures
        final(canvas)@.len() == width * height,
        forall|u: int, v: int|
            0 <= u < width && 0 <= v < height ==> #[trigger] texel(
                final(canvas)@,
                width as int,
                u,
                v,
            ) == if at.covers(u, v) {
                glyph.coverage_at(u - at.x, v - at.y)
            } else {
                texel(old(canvas)@, width as int, u, v)
            },
{
    let mut dy: u32 = 0;
    while dy < at.h
        invariant
            dy <= at.h,
            1 <= width <= MAX_ATLAS_DIM,
            1 <= height <= MAX_ATLAS_DIM,
            canvas@.len() == width * height,
            glyph.well_formed(),
            at.w == glyph.width,
            at.h == glyph.height,
            at.within(width as int, height as int),
            forall|u: int, v: int|
                0 <= u < width && 0 <= v < height ==> #[trigger] texel(
                    canvas@,
                    width as int,
                    u,
                    v,
                ) == if at.covers(u, v) && v - at.y < dy {
                    glyph.coverage_at(u - at.x, v - at.y)
                } else {
                    texel(old(canvas)@, width as int, u, v)
                },
        decreases at.h - dy,
    {
        let mut dx: u32 = 0;
        while dx < at.w
            invariant
                dx <= at.w,
                dy < at.h,
                1 <= width <= MAX_ATLAS_DIM,
                1 <= height <= MAX_ATLAS_DIM,
                canvas@.len() == width * height,
                glyph.well_formed(),
                at.w == glyph.width,
                at.h == glyph.height,
                at.within(width as int, height as int),
                forall|u: int, v: int|
                    0 <= u < width && 0 <= v < height ==> #[trigger] texel(
                        canvas@,
                        width as int,
                        u,
                        v,
                    ) == if at.covers(u, v) && (v - at.y < dy || (v - at.y == dy && u - at.x < dx)) {
                        glyph.coverage_at(u - at.x, v - at.y)
                    } else {
                        texel(old(canvas)@, width as int, u, v)
                    },
            decreases at.w - dx,
        {
            let u0: u32 = at.x + dx;
            let v0: u32 = at.y + dy;
            proof {
                lemma_texel_index(width as int, height as int, u0 as int, v0 as int);
                lemma_texel_index(at.w as int, at.h as int, dx as int, dy as int);
                assert(0 <= dy * at.w <= MAX_ATLAS_DIM * MAX_ATLAS_DIM && 0 <= v0 * width
                    <= MAX_ATLAS_DIM * MAX_ATLAS_DIM) by (nonlinear_arith)
                    requires
                        0 <= dy <= MAX_ATLAS_DIM,
                        0 <= at.w <= MAX_ATLAS_DIM,
                        0 <= v0 <= MAX_ATLAS_DIM,
                        0 <= width <= MAX_ATLAS_DIM,
                ;
            }
            let source: usize = (dy as u64 * at.w as u64 + dx as u64) as usize;
            let target: usize = (v0 as u64 * width as u64 + u0 as u64) as usize;
            let value: u8 = glyph.coverage[source];
            let ghost before = canvas@;
            canvas.set(target, value);
            proof {
                assert forall|u: int, v: int| 0 <= u < width && 0 <= v < height implies #[trigger] texel(
                    canvas@,
                    width as int,
                    u,
                    v,
                ) == if at.covers(u, v) && (v - at.y < dy || (v - at.y == dy && u - at.x < dx + 1)) {
                    glyph.coverage_at(u - at.x, v - at.y)
                } else {
                    texel(old(canvas)@, width as int, u, v)
                } by {
                    lemma_texel_index(width as int, height as int, u, v);
                    if v * width + u == target as int {
                        lemma_texel_index_unique(width as int, u, v, u0 as int, v0 as int);
                    } else {
                        assert(texel(canvas@, width as int, u, v) == texel(
                            before,
                            width as int,
                            u,
                            v,
                        ));
                    }
                }
            }
            dx = dx + 1;
        }
        dy = dy + 1;
    }
}

/// Paints the solid texel and every bitmap onto an empty canvas.
fn paint(glyphs: &Vec<RasterGlyph>, slots: &Vec<AtlasRect>, width: u32, height: u32) -> (canvas:
    Vec<u8>)
    requires
        width_upto(glyphs@, glyphs@.len() as int) <= width <= MAX_ATLAS_DIM,
        height == height_upto(glyphs@, width as int, glyphs@.len() as int),
        height <= MAX_ATLAS_DIM,
        forall|i: int| 0 <= i < glyphs@.len() ==> (#[trigger] glyphs@[i]).well_formed(),
        slots@.len() == glyphs@.len(),
        forall|i: int|
            0 <= i < slots@.len() ==> #[trigger] slots@[i] == slot_in(glyphs@, width as int, i),
    ensures
        canvas@.len() == width * height,
        forall|u: int, v: int|
            0 <= u < width && 0 <= v < height ==> #[trigger] texel(canvas@, width as int, u, v)
                == painted_upto(glyphs@, width as int, glyphs@.len() as int, u, v),
{
    proof {
        lemma_width_grows(glyphs@, 0, glyphs@.len() as int);
        lemma_shelf_bounds(glyphs@, width as int, glyphs@.len() as int);
        assert(1 <= width * height <= MAX_ATLAS_DIM * MAX_ATLAS_DIM) by (nonlinear_arith)
            requires
                1 <= width <= MAX_ATLAS_DIM,
                1 <= height <= MAX_ATLAS_DIM,
        ;
    }
    let total: usize = (width as u64 * height as u64) as usize;
    let mut canvas: Vec<u8> = vec![0u8; total];
    canvas.set(0, SOLID_COVERAGE);
    proof {
        assert forall|u: int, v: int| 0 <= u < width && 0 <= v < height implies #[trigger] texel(
            canvas@,
            width as int,
            u,
            v,
        ) == painted_upto(glyphs@, width as int, 0, u, v) by {
            lemma_texel_index(width as int, height as int, u, v);
            if v * width + u == 0 {
                lemma_texel_index_unique(width as int, u, v, 0, 0);
            }
        }
    }
    let mut i: usize = 0;
    while i < glyphs.len()
        invariant
            i <= glyphs@.len(),
            width_upto(glyphs@, glyphs@.len() as int) <= width <= MAX_ATLAS_DIM,
            height == height_upto(glyphs@, width as int, glyphs@.len() as int),
            1 <= height <= MAX_ATLAS_DIM,
            1 <= width,
            forall|k: int| 0 <= k < glyphs@.len() ==> (#[trigger] glyphs@[k]).well_formed(),
            slots@.len() == glyphs@.len(),
            forall|k: int|
                0 <= k < slots@.len() ==> #[trigger] slots@[k] == slot_in(
                    glyphs@,
                    width as int,
                    k,
                ),
            canvas@.len() == width * height,
            forall|u: int, v: int|
                0 <= u < width && 0 <= v < height ==> #[trigger] texel(
                    canvas@,
                    width as int,
                    u,
                    v,
                ) == painted_upto(glyphs@, width as int, i as int, u, v),
        decreases glyphs@.len() - i,
    {
        proof {
            lemma_slot_behind_cursor(glyphs@, width as int, glyphs@.len() as int, i as int);
        }
        blit(&mut canvas, width, height, &glyphs[i], slots[i]);
        i = i + 1;
    }
    canvas
}

/// Files every glyph under its codepoint.
fn index(glyphs: &Vec<RasterGlyph>, slots: &Vec<AtlasRect>, Ghost(width): Ghost<int>) -> (table:
    HashMap<u32, Glyph>)
    requires
        slots@.len() == glyphs@.len(),
        forall|i: int| 0 <= i < slots@.len() ==> #[trigger] slots@[i] == slot_in(glyphs@, width, i),
    ensures
        table@ == table_upto(glyphs@, width, glyphs@.len() as int),
{
    let mut table: HashMap<u32, Glyph> = HashMap::new();
    let mut i: usize = 0;
    while i < glyphs.len()
        invariant
            i <= glyphs@.len(),
            slots@.len() == glyphs@.len(),
            forall|k: int|
                0 <= k < slots@.len() ==> #[trigger] slots@[k] == slot_in(glyphs@, width, k),
            table@ == table_upto(glyphs@, width, i as int),
        decreases glyphs@.len() - i,
    {
        let g = &glyphs[i];
        table.insert(
            g.codepoint,
            Glyph { codepoint: g.codepoint, uv: slots[i], left: g.left, top: g.top, advance: g.advance },
        );
        i = i + 1;
    }
    table
}

impl FontAtlas {
    /// Whether the atlas is well formed.
    pub open spec fn wf(&self) -> bool {
        self@.wf()
    }

    /// An atlas that holds the solid texel and no glyph.
    pub fn new() -> (atlas: FontAtlas)
        ensures
            atlas@ == AtlasView::blank(),
            atlas.wf(),
    {
        let atlas = FontAtlas {
            width: 1,
            height: 1,
            coverage: vec![SOLID_COVERAGE],
            glyphs: HashMap::new(),
            line_height: 0,
            fallback_advance: 0,
        };
        assert(atlas@.coverage =~= seq![SOLID_COVERAGE]);
        atlas
    }

    /// Loads a rasterized font: packs its bitmaps into one atlas bitmap and
    /// records each glyph's rectangle and metrics. The font replaces what the
    /// atlas held. A font that cannot be loaded leaves the atlas as it was.
    pub fn add_font(&mut self, font: &RasterFont) -> (result: Result<(), FontError>)
        requires
            old(self).wf(),
        ensures
            final(self).wf(),
            result is Ok <==> font.loadable(),
            match result {
                Ok(()) => final(self)@ == font.atlas() && final(self)@.covers_printable(),
                Err(error) => final(self)@ == old(self)@ && font.fails_with(error),
            },
    {
        if font.pixel_size == 0 {
            return Err(FontError::ZeroPixelSize);
        }
        if let Some(index) = first_malformed(&font.glyphs) {
            return Err(FontError::MalformedGlyph { index });
        }
        if let Some(codepoint) = first_repeat(&font.glyphs) {
            return Err(FontError::DuplicateGlyph { codepoint });
        }
        if let Some(codepoint) = first_missing(&font.glyphs) {
            proof {
                assert(!font.covers_printable()) by {
                    if font.covers_printable() {
                        assert(has_glyph(font.glyphs@, font.glyphs@.len() as int, codepoint as int));
                    }
                }
            }
            return Err(FontError::MissingGlyph { codepoint });
        }
        let width: u32 = measure_width(&font.glyphs);
        if width > MAX_ATLAS_DIM {
            return Err(FontError::AtlasTooLarge);
        }
        let (slots, height) = match place(&font.glyphs, width) {
            Some(placed) => placed,
            None => {
                return Err(FontError::AtlasTooLarge);
            },
        };
        let canvas: Vec<u8> = paint(&font.glyphs, &slots, width, height);
        let table: HashMap<u32, Glyph> = index(&font.glyphs, &slots, Ghost(width as int));
        self.width = width;
        self.height = height;
        self.coverage = canvas;
        self.glyphs = table;
        self.line_height = font.line_height;
        self.fallback_advance = font.pixel_size / 2;
        proof {
            lemma_atlas_wf(*font);
            let made = font.atlas();
            assert(self@.coverage =~= made.coverage) by {
                assert forall|i: int| 0 <= i < made.coverage.len() implies self@.coverage[i]
                    == made.coverage[i] by {
                    let u = i % (width as int);
                    let v = i / (width as int);
                    vstd::arithmetic::div_mod::lemma_fundamental_div_mod(i, width as int);
                    assert(0 <= v < height) by (nonlinear_arith)
                        requires
                            0 <= i < width * height,
                            v == i / (width as int),
                            width > 0,
                    ;
                    assert(i == v * width + u) by (nonlinear_arith)
                        requires
                            i == width * v + u,
                    ;
                    assert(self@.coverage[i] == texel(self@.coverage, width as int, u, v));
                }
            }
            assert(self@ =~= made);
        }
        Ok(())
    }

    /// The size of the atlas bitmap in texels, width first.
    pub fn size(&self) -> (size: (u32, u32))
        ensures
            size == (self@.width, self@.height),
    {
        (self.width, self.height)
    }

    /// The glyph of a codepoint, if the atlas has one.
    pub fn glyph(&self, codepoint: u32) -> (found: Option<Glyph>)
        ensures
            found == self@.glyph(codepoint),
    {
        match self.glyphs.get(&codepoint) {
            Some(glyph) => Some(*glyph),
            None => None,
        }
    }

    /// The distance between the tops of two lines of text.
    pub fn line_height(&self) -> (height: u32)
        ensures
            height == self@.line_height,
    {
        self.line_height
    }

    /// How far the pen moves for a character that has no glyph.
    pub fn fallback_advance(&self) -> (advance: u32)
        ensures
            advance == self@.fallback_advance,
    {
        self.fallback_advance
    }

    /// Builds the texture to upload: four bytes per texel in row-major
    /// order, each of the four the texel's coverage. The buffer is built anew
    /// on every call.
    pub fn build_tex(&self) -> (texture: Vec<u8>)
        requires
            self.wf(),
        ensures
            texture@ == self@.texture(),
            texture@.len() == 4 * self@.width * self@.height,
    {
        let mut texture: Vec<u8> = Vec::new();
        let mut i: usize = 0;
        while i < self.coverage.len()
            invariant
                i <= self.coverage@.len(),
                texture@.len() == 4 * i,
                forall|k: int| 0 <= k < 4 * i ==> #[trigger] texture@[k] == self.coverage@[k / 4],
            decreases self.coverage@.len() - i,
        {
            let value: u8 = self.coverage[i];
            texture.push(value);
            texture.push(value);
            texture.push(value);
            texture.push(value);
            i = i + 1;
        }
        assert(texture@ =~= self@.texture());
        assert(4 * self@.width * self@.height == 4 * (self@.width * self@.height)) by (nonlinear_arith);
        texture
    }
}

} // verus!
