use imui::atlas::FontAtlas;
use imui::font::{FontError, Glyph, RasterFont, RasterGlyph};
use imui::geometry::AtlasRect;

fn glyph(codepoint: u32, width: u32, height: u32, advance: u32) -> RasterGlyph {
    let mut coverage = Vec::new();
    for i in 0..(width * height) {
        coverage.push(((codepoint * 7 + i * 3) % 250) as u8 + 1);
    }
    RasterGlyph { codepoint, width, height, left: 1, top: 2, advance, coverage }
}

/// The printable range: an empty bitmap for the space, six by ten texels
/// for every other glyph.
fn sample_font() -> RasterFont {
    let mut glyphs = vec![glyph(0x20, 0, 0, 4)];
    for codepoint in 0x21..=0x7Eu32 {
        glyphs.push(glyph(codepoint, 6, 10, 7));
    }
    RasterFont { pixel_size: 18, line_height: 21, glyphs }
}

fn loaded() -> FontAtlas {
    let mut atlas = FontAtlas::new();
    assert_eq!(atlas.add_font(&sample_font()), Ok(()));
    atlas
}

fn texel(texture: &[u8], width: u32, u: u32, v: u32) -> [u8; 4] {
    let at = 4 * (v * width + u) as usize;
    [texture[at], texture[at + 1], texture[at + 2], texture[at + 3]]
}

#[test]
fn new_atlas_is_the_solid_texel() {
    let atlas = FontAtlas::new();
    assert_eq!(atlas.size(), (1, 1));
    assert_eq!(atlas.build_tex(), vec![255, 255, 255, 255]);
    assert_eq!(atlas.glyph(0x41), None);
    assert_eq!(atlas.line_height(), 0);
    assert_eq!(atlas.fallback_advance(), 0);
}

#[test]
fn add_font_sizes_the_atlas() {
    let atlas = loaded();
    assert_eq!(atlas.size(), (256, 32));
    assert_eq!(atlas.build_tex().len(), 4 * 256 * 32);
    assert_eq!(atlas.line_height(), 21);
    assert_eq!(atlas.fallback_advance(), 9);
}

#[test]
fn add_font_places_glyphs_on_shelves() {
    let atlas = loaded();
    assert_eq!(
        atlas.glyph(0x20),
        Some(Glyph {
            codepoint: 0x20,
            uv: AtlasRect { x: 2, y: 0, w: 0, h: 0 },
            left: 1,
            top: 2,
            advance: 4
        })
    );
    assert_eq!(
        atlas.glyph(0x21),
        Some(Glyph {
            codepoint: 0x21,
            uv: AtlasRect { x: 3, y: 0, w: 6, h: 10 },
            left: 1,
            top: 2,
            advance: 7
        })
    );
    assert_eq!(atlas.glyph(0x41).unwrap().uv, AtlasRect { x: 227, y: 0, w: 6, h: 10 });
    assert_eq!(atlas.glyph(0x44).unwrap().uv, AtlasRect { x: 248, y: 0, w: 6, h: 10 });
    assert_eq!(atlas.glyph(0x45).unwrap().uv, AtlasRect { x: 0, y: 11, w: 6, h: 10 });
    assert_eq!(atlas.glyph(0x69).unwrap().uv, AtlasRect { x: 0, y: 22, w: 6, h: 10 });
    assert_eq!(atlas.glyph(0x7E).unwrap().uv, AtlasRect { x: 147, y: 22, w: 6, h: 10 });
    assert_eq!(atlas.glyph(0x7F), None);
    assert_eq!(atlas.glyph(0x1F), None);
}

#[test]
fn glyph_rectangles_lie_inside_the_atlas() {
    let atlas = loaded();
    let (width, height) = atlas.size();
    for codepoint in 0x20..=0x7Eu32 {
        let uv = atlas.glyph(codepoint).unwrap().uv;
        assert!(uv.x + uv.w <= width);
        assert!(uv.y + uv.h <= height);
    }
}

#[test]
fn glyph_rectangles_do_not_overlap() {
    let atlas = loaded();
    for c in 0x20..=0x7Eu32 {
        for d in (c + 1)..=0x7Eu32 {
            let a = atlas.glyph(c).unwrap().uv;
            let b = atlas.glyph(d).unwrap().uv;
            let apart =
                a.x + a.w <= b.x || b.x + b.w <= a.x || a.y + a.h <= b.y || b.y + b.h <= a.y;
            assert!(apart, "{} and {} overlap", c, d);
        }
    }
}

#[test]
fn texture_holds_each_bitmap_at_its_rectangle() {
    let font = sample_font();
    let atlas = loaded();
    let texture = atlas.build_tex();
    for g in font.glyphs.iter() {
        let uv = atlas.glyph(g.codepoint).unwrap().uv;
        for dy in 0..g.height {
            for dx in 0..g.width {
                let value = g.coverage[(dy * g.width + dx) as usize];
                assert_eq!(texel(&texture, 256, uv.x + dx, uv.y + dy), [value; 4]);
            }
        }
    }
}

#[test]
fn texture_is_solid_at_the_origin_and_empty_between_glyphs() {
    let atlas = loaded();
    let texture = atlas.build_tex();
    assert_eq!(texel(&texture, 256, 0, 0), [255; 4]);
    assert_eq!(texel(&texture, 256, 1, 0), [0; 4]);
    assert_eq!(texel(&texture, 256, 2, 0), [0; 4]);
    assert_eq!(texel(&texture, 256, 0, 1), [0; 4]);
    assert_eq!(texel(&texture, 256, 9, 0), [0; 4]);
    assert_eq!(texel(&texture, 256, 0, 10), [0; 4]);
    assert_eq!(texel(&texture, 256, 255, 31), [0; 4]);
    let mut painted = 0usize;
    for i in 0..(256 * 32) {
        if texture[4 * i] != 0 {
            painted += 1;
        }
    }
    assert_eq!(painted, 1 + 94 * 60);
}

#[test]
fn build_tex_twice_gives_the_same_bytes() {
    let atlas = loaded();
    let first = atlas.build_tex();
    let second = atlas.build_tex();
    assert_eq!(first, second);
}

#[test]
fn add_font_rejects_a_zero_pixel_size() {
    let mut font = sample_font();
    font.pixel_size = 0;
    let mut atlas = FontAtlas::new();
    assert_eq!(atlas.add_font(&font), Err(FontError::ZeroPixelSize));
    assert_eq!(atlas.size(), (1, 1));
}

#[test]
fn add_font_rejects_a_bitmap_of_the_wrong_length() {
    let mut font = sample_font();
    font.glyphs[5].coverage.pop();
    font.glyphs[9].coverage.push(0);
    let mut atlas = FontAtlas::new();
    assert_eq!(atlas.add_font(&font), Err(FontError::MalformedGlyph { index: 5 }));
    assert_eq!(atlas.size(), (1, 1));
    assert_eq!(atlas.glyph(0x41), None);
}

#[test]
fn add_font_rejects_a_repeated_codepoint() {
    let mut font = sample_font();
    font.glyphs.push(glyph(0x41, 3, 3, 3));
    let mut atlas = FontAtlas::new();
    assert_eq!(atlas.add_font(&font), Err(FontError::DuplicateGlyph { codepoint: 0x41 }));
}

#[test]
fn add_font_rejects_a_missing_printable_glyph() {
    let mut font = sample_font();
    font.glyphs.remove(0x7A - 0x20);
    font.glyphs.remove(0x30 - 0x20);
    let mut atlas = FontAtlas::new();
    assert_eq!(atlas.add_font(&font), Err(FontError::MissingGlyph { codepoint: 0x30 }));
}

#[test]
fn add_font_rejects_glyphs_that_do_not_fit() {
    let mut font = sample_font();
    font.glyphs.push(glyph(0x100, 4, 8200, 4));
    let mut atlas = FontAtlas::new();
    assert_eq!(atlas.add_font(&font), Err(FontError::AtlasTooLarge));
    let mut wide = sample_font();
    wide.glyphs.push(glyph(0x100, 8193, 1, 4));
    assert_eq!(atlas.add_font(&wide), Err(FontError::AtlasTooLarge));
}

#[test]
fn errors_come_in_their_order() {
    let mut font = sample_font();
    font.glyphs.push(glyph(0x41, 3, 3, 3));
    font.glyphs[2].coverage.pop();
    let mut atlas = FontAtlas::new();
    assert_eq!(atlas.add_font(&font), Err(FontError::MalformedGlyph { index: 2 }));
    font.pixel_size = 0;
    assert_eq!(atlas.add_font(&font), Err(FontError::ZeroPixelSize));
}

#[test]
fn a_failed_load_keeps_the_earlier_font() {
    let mut atlas = loaded();
    let before = atlas.build_tex();
    let mut font = sample_font();
    font.glyphs.pop();
    assert_eq!(atlas.add_font(&font), Err(FontError::MissingGlyph { codepoint: 0x7E }));
    assert_eq!(atlas.size(), (256, 32));
    assert_eq!(atlas.build_tex(), before);
    assert_eq!(atlas.glyph(0x7E).unwrap().uv, AtlasRect { x: 147, y: 22, w: 6, h: 10 });
}

#[test]
fn a_second_font_replaces_the_first() {
    let mut atlas = loaded();
    let mut font = sample_font();
    font.glyphs.push(glyph(0x100, 300, 2, 5));
    font.line_height = 30;
    font.pixel_size = 25;
    assert_eq!(atlas.add_font(&font), Ok(()));
    assert_eq!(atlas.size().0, 300);
    assert_eq!(atlas.line_height(), 30);
    assert_eq!(atlas.fallback_advance(), 12);
    assert_eq!(atlas.glyph(0x100).unwrap().uv.w, 300);
}

#[test]
fn a_superset_of_the_printable_range_is_loaded() {
    let mut font = sample_font();
    font.glyphs.push(glyph(0xE9, 5, 9, 6));
    let mut atlas = FontAtlas::new();
    assert_eq!(atlas.add_font(&font), Ok(()));
    assert_eq!(atlas.glyph(0xE9).unwrap().uv, AtlasRect { x: 154, y: 22, w: 5, h: 9 });
    assert_eq!(atlas.size(), (256, 32));
}
