//! What one frame is made of: the layout cursor, the input as the frame saw
//! it, and the geometry emitted so far; and what each widget does to them.

use vstd::prelude::*;
use crate::atlas::{AtlasView, FontAtlas};
use crate::draw::{lemma_with_quad_wf, Color, DrawList, DrawListView, Quad, MAX_QUADS};
use crate::font::Glyph;
use crate::geometry::{clamp_coord, shift, Point, Rect, Texel, COORD_MAX};

verus! {

/// Space between a button's border and its label, on each side.
pub const BUTTON_PADDING: u32 = 8;

/// Where the next widget is drawn, and how far apart two lines are.
#[derive(Clone, Copy, Debug, PartialEq, Eq, Structural)]
pub struct LayoutCursor {
    pub pos: Point,
    pub line_advance: u32,
}

/// How a button looks.
#[derive(Clone, Copy, Debug, PartialEq, Eq, Structural)]
pub enum ButtonState {
    /// The pointer is elsewhere.
    Idle,
    /// The pointer is over the button and the primary button is up.
    Hovered,
    /// The pointer is over the button and the primary button is down.
    Pressed,
}

/// The colour of text.
pub open spec fn spec_text_color() -> Color {
    Color { r: 255, g: 255, b: 255 }
}

#[verifier::when_used_as_spec(spec_text_color)]
pub fn text_color() -> (color: Color)
    ensures
        color == spec_text_color(),
{
    Color { r: 255, g: 255, b: 255 }
}

impl ButtonState {
    /// The look of a button, given whether the pointer is over it and
    /// whether the primary button is down.
    pub open spec fn spec_of(hovered: bool, down: bool) -> ButtonState {
        if !hovered {
            ButtonState::Idle
        } else if down {
            ButtonState::Pressed
        } else {
            ButtonState::Hovered
        }
    }

    #[verifier::when_used_as_spec(spec_of)]
    pub fn of(hovered: bool, down: bool) -> (state: ButtonState)
        ensures
            state == ButtonState::spec_of(hovered, down),
    {
        if !hovered {
            ButtonState::Idle
        } else if down {
            ButtonState::Pressed
        } else {
            ButtonState::Hovered
        }
    }

    /// The background colour of a button in this state.
    pub open spec fn spec_color(self) -> Color {
        match self {
            ButtonState::Idle => Color { r: 64, g: 64, b: 64 },
            ButtonState::Hovered => Color { r: 96, g: 96, b: 96 },
            ButtonState::Pressed => Color { r: 32, g: 96, b: 160 },
        }
    }

    #[verifier::when_used_as_spec(spec_color)]
    pub fn color(self) -> (color: Color)
        ensures
            color == self.spec_color(),
    {
        match self {
            ButtonState::Idle => Color { r: 64, g: 64, b: 64 },
            ButtonState::Hovered => Color { r: 96, g: 96, b: 96 },
            ButtonState::Pressed => Color { r: 32, g: 96, b: 160 },
        }
    }
}

/// The mathematical content of a frame in progress.
#[verifier::ext_equal]
pub struct FrameView {
    /// The pointer position when the frame began.
    pub pointer: Point,
    /// Whether the primary button was down when the frame began.
    pub primary_down: bool,
    /// Whether the primary button went down between the previous frame and
    /// this one.
    pub clicked: bool,
    pub cursor: LayoutCursor,
    pub list: DrawListView,
}

/// How far the pen moves for one character: its glyph's advance, or the
/// fallback advance where it has no glyph.
pub open spec fn advance_of(fonts: AtlasView, c: char) -> u32 {
    match fonts.glyph(c as u32) {
        Some(glyph) => glyph.advance,
        None => fonts.fallback_advance,
    }
}

/// The sum of the advances of all characters of a label.
pub open spec fn text_advance(fonts: AtlasView, label: Seq<char>) -> int
    decreases label.len(),
{
    if label.len() == 0 {
        0
    } else {
        text_advance(fonts, label.drop_last()) + advance_of(fonts, label.last())
    }
}

/// The number of characters of a label that have a glyph.
pub open spec fn mapped_count(fonts: AtlasView, label: Seq<char>) -> int
    decreases label.len(),
{
    if label.len() == 0 {
        0
    } else {
        mapped_count(fonts, label.drop_last()) + if fonts.glyphs.contains_key(label.last() as u32) {
            1int
        } else {
            0int
        }
    }
}

/// The number of quads that a label adds to a frame: one per character that
/// has a glyph, as far as the draw list has room.
pub open spec fn quads_added(frame: FrameView, fonts: AtlasView, label: Seq<char>) -> int {
    let room = MAX_QUADS - frame.list.quads();
    if mapped_count(fonts, label) < room {
        mapped_count(fonts, label)
    } else {
        room
    }
}

/// A length, cut off at the largest coordinate.
pub open spec fn capped(length: int) -> u32 {
    if length > COORD_MAX {
        COORD_MAX as u32
    } else {
        length as u32
    }
}

/// The quad of a glyph whose line starts at `pen`.
pub open spec fn glyph_quad(pen: Point, glyph: Glyph) -> Quad {
    Quad {
        min: Point {
            x: clamp_coord(pen.x + glyph.left) as i32,
            y: clamp_coord(pen.y + glyph.top) as i32,
        },
        max: Point {
            x: clamp_coord(pen.x + glyph.left + glyph.uv.w) as i32,
            y: clamp_coord(pen.y + glyph.top + glyph.uv.h) as i32,
        },
        uv_min: Texel { u: glyph.uv.x, v: glyph.uv.y },
        uv_max: Texel { u: (glyph.uv.x + glyph.uv.w) as u32, v: (glyph.uv.y + glyph.uv.h) as u32 },
        color: spec_text_color(),
    }
}

/// The quad that fills `rect` with one colour. All four corners sample the
/// solid texel.
pub open spec fn solid_quad(rect: Rect, color: Color) -> Quad {
    Quad {
        min: rect.spec_origin(),
        max: rect.spec_far_corner(),
        uv_min: Texel { u: 0, v: 0 },
        uv_max: Texel { u: 0, v: 0 },
        color,
    }
}

impl FrameView {
    /// A frame is well formed when its draw list is and its pen lies inside
    /// the coordinate range.
    pub open spec fn wf(self) -> bool {
        self.list.wf() && self.cursor.pos.in_range()
    }

    /// The frame with the pen moved to the right by `advance`.
    pub open spec fn advanced(self, advance: int) -> FrameView {
        FrameView {
            cursor: LayoutCursor {
                pos: Point {
                    x: clamp_coord(self.cursor.pos.x + advance) as i32,
                    y: self.cursor.pos.y,
                },
                ..self.cursor
            },
            ..self
        }
    }

    /// The frame after one character: a character with a glyph adds the
    /// glyph's quad at the pen; every character moves the pen by its advance.
    pub open spec fn put_char(self, fonts: AtlasView, c: char) -> FrameView {
        match fonts.glyph(c as u32) {
            Some(glyph) => FrameView {
                list: self.list.with_quad(glyph_quad(self.cursor.pos, glyph)),
                ..self
            }.advanced(glyph.advance as int),
            None => self.advanced(fonts.fallback_advance as int),
        }
    }

    /// The frame after the characters of a label, from left to right.
    pub open spec fn put_text(self, fonts: AtlasView, label: Seq<char>) -> FrameView
        decreases label.len(),
    {
        if label.len() == 0 {
            self
        } else {
            self.put_text(fonts, label.drop_last()).put_char(fonts, label.last())
        }
    }

    /// The rectangle of a button drawn at the pen: the label's extent by the
    /// line height, with the padding on every side.
    pub open spec fn button_rect(self, fonts: AtlasView, label: Seq<char>) -> Rect {
        Rect {
            x: self.cursor.pos.x,
            y: self.cursor.pos.y,
            w: (capped(text_advance(fonts, label)) + 2 * BUTTON_PADDING) as u32,
            h: (capped(self.cursor.line_advance as int) + 2 * BUTTON_PADDING) as u32,
        }
    }

    /// Whether the pointer is over a button drawn at the pen.
    pub open spec fn button_hovered(self, fonts: AtlasView, label: Seq<char>) -> bool {
        self.button_rect(fonts, label).spec_contains(self.pointer)
    }

    /// The look of a button drawn at the pen.
    pub open spec fn button_state(self, fonts: AtlasView, label: Seq<char>) -> ButtonState {
        ButtonState::spec_of(self.button_hovered(fonts, label), self.primary_down)
    }

    /// Whether a button drawn at the pen reports a click: the pointer is over
    /// it and the primary button went down since the previous frame.
    pub open spec fn button_clicked(self, fonts: AtlasView, label: Seq<char>) -> bool {
        self.button_hovered(fonts, label) && self.clicked
    }

    /// The frame after a button: first the background quad in the colour of
    /// the button's look, then the label inside the padding; the pen ends at
    /// the button's right edge, on the line where it began.
    pub open spec fn put_button(self, fonts: AtlasView, label: Seq<char>) -> FrameView {
        let rect = self.button_rect(fonts, label);
        let backed = FrameView {
            list: self.list.with_quad(solid_quad(rect, self.button_state(fonts, label).spec_color())),
            cursor: LayoutCursor {
                pos: Point {
                    x: clamp_coord(rect.x + BUTTON_PADDING) as i32,
                    y: clamp_coord(rect.y + BUTTON_PADDING) as i32,
                },
                ..self.cursor
            },
            ..self
        };
        let labelled = backed.put_text(fonts, label);
        FrameView {
            cursor: LayoutCursor {
                pos: Point { x: clamp_coord(rect.x + rect.w) as i32, y: rect.y },
                ..self.cursor
            },
            ..labelled
        }
    }
}

/// One more character at the end of a label.
pub proof fn lemma_label_push(fonts: AtlasView, label: Seq<char>, c: char)
    ensures
        text_advance(fonts, label.push(c)) == text_advance(fonts, label) + advance_of(fonts, c),
        mapped_count(fonts, label.push(c)) == mapped_count(fonts, label) + if fonts.glyphs.contains_key(
            c as u32,
        ) {
            1int
        } else {
            0int
        },
        forall|frame: FrameView| #[trigger]
            frame.put_text(fonts, label.push(c)) == frame.put_text(fonts, label).put_char(fonts, c),
        text_advance(fonts, label) >= 0,
        0 <= mapped_count(fonts, label) <= label.len(),
    decreases label.len(),
{
    assert(label.push(c).drop_last() =~= label);
    assert(label.push(c).last() == c);
    if label.len() > 0 {
        lemma_label_push(fonts, label.drop_last(), label.last());
        assert(label.drop_last().push(label.last()) =~= label);
    }
}

/// What text does to a well-formed frame, in closed form. The pen moves to
/// the right by the sum of the advances, as far as the coordinate range
/// reaches, and stays on its line; every character that has a glyph adds one
/// quad, four vertices and six indices, as long as the draw list has room;
/// nothing else changes.
pub proof fn lemma_put_text(frame: FrameView, fonts: AtlasView, label: Seq<char>)
    requires
        frame.wf(),
    ensures
        ({
            let after = frame.put_text(fonts, label);
            let added = quads_added(frame, fonts, label);
            &&& after.wf()
            &&& after.cursor.pos.x == clamp_coord(frame.cursor.pos.x + text_advance(fonts, label))
            &&& after.cursor.pos.y == frame.cursor.pos.y
            &&& after.cursor.line_advance == frame.cursor.line_advance
            &&& after.pointer == frame.pointer
            &&& after.primary_down == frame.primary_down
            &&& after.clicked == frame.clicked
            &&& 0 <= added <= label.len()
            &&& after.list.quads() == frame.list.quads() + added
            &&& after.list.vertices.len() == frame.list.vertices.len() + 4 * added
            &&& after.list.indices.len() == frame.list.indices.len() + 6 * added
            &&& after.list.vertices.subrange(0, frame.list.vertices.len() as int)
                == frame.list.vertices
            &&& after.list.indices.subrange(0, frame.list.indices.len() as int)
                == frame.list.indices
        }),
    decreases label.len(),
{
    lemma_label_push(fonts, label, ' ');
    if label.len() == 0 {
        assert(frame.list.vertices.subrange(0, frame.list.vertices.len() as int)
            =~= frame.list.vertices);
        assert(frame.list.indices.subrange(0, frame.list.indices.len() as int)
            =~= frame.list.indices);
    } else {
        let front = label.drop_last();
        let c = label.last();
        lemma_put_text(frame, fonts, front);
        lemma_label_push(fonts, front, c);
        assert(front.push(c) =~= label);
        let mid = frame.put_text(fonts, front);
        let after = mid.put_char(fonts, c);
        assert(after == frame.put_text(fonts, label));
        match fonts.glyph(c as u32) {
            Some(glyph) => {
                lemma_with_quad_wf(mid.list, glyph_quad(mid.cursor.pos, glyph));
            },
            None => {},
        }
        assert(after.list.vertices.subrange(0, frame.list.vertices.len() as int)
            =~= frame.list.vertices);
        assert(after.list.indices.subrange(0, frame.list.indices.len() as int)
            =~= frame.list.indices);
    }
}

/// The first quad that a button adds is its background: where the draw list
/// has room, the four vertices that follow the earlier ones are the corners
/// of the button's rectangle, in the colour of the button's look. The
/// button keeps the frame well formed and the earlier geometry in place.
pub proof fn lemma_button_background(frame: FrameView, fonts: AtlasView, label: Seq<char>)
    requires
        frame.wf(),
    ensures
        ({
            let after = frame.put_button(fonts, label);
            let rect = frame.button_rect(fonts, label);
            let look = frame.button_state(fonts, label);
            let start = frame.list.vertices.len() as int;
            &&& after.wf()
            &&& after.list.vertices.subrange(0, start) == frame.list.vertices
            &&& frame.list.has_room() ==> after.list.vertices.len() >= start + 4
                && after.list.vertices.subrange(start, start + 4) == solid_quad(
                rect,
                look.spec_color(),
            ).vertices()
            &&& after.cursor.pos.x == clamp_coord(rect.x + rect.w)
            &&& after.cursor.pos.y == frame.cursor.pos.y
            &&& after.cursor.line_advance == frame.cursor.line_advance
            &&& after.pointer == frame.pointer
            &&& after.primary_down == frame.primary_down
            &&& after.clicked == frame.clicked
        }),
{
    let rect = frame.button_rect(fonts, label);
    let quad = solid_quad(rect, frame.button_state(fonts, label).spec_color());
    let backed = FrameView {
        list: frame.list.with_quad(quad),
        cursor: LayoutCursor {
            pos: Point {
                x: clamp_coord(rect.x + BUTTON_PADDING) as i32,
                y: clamp_coord(rect.y + BUTTON_PADDING) as i32,
            },
            ..frame.cursor
        },
        ..frame
    };
    lemma_with_quad_wf(frame.list, quad);
    lemma_put_text(backed, fonts, label);
    let labelled = backed.put_text(fonts, label);
    let after = frame.put_button(fonts, label);
    let start = frame.list.vertices.len() as int;
    assert(after.list == labelled.list);
    assert(after.list.vertices.subrange(0, start) =~= labelled.list.vertices.subrange(
        0,
        backed.list.vertices.len() as int,
    ).subrange(0, start));
    assert(backed.list.vertices.subrange(0, start) =~= frame.list.vertices);
    if frame.list.has_room() {
        assert(after.list.vertices.subrange(start, start + 4) =~= labelled.list.vertices.subrange(
            0,
            backed.list.vertices.len() as int,
        ).subrange(start, start + 4));
        assert(backed.list.vertices.subrange(start, start + 4) =~= quad.vertices());
    }
}

/// A frame in progress.
pub struct Frame {
    pub pointer: Point,
    pub primary_down: bool,
    pub clicked: bool,
    pub cursor: LayoutCursor,
    pub list: DrawList,
}

impl View for Frame {
    type V = FrameView;

    open spec fn view(&self) -> FrameView {
        FrameView {
            pointer: self.pointer,
            primary_down: self.primary_down,
            clicked: self.clicked,
            cursor: self.cursor,
            list: self.list@,
        }
    }
}

/// Cuts a length off at the largest coordinate.
pub fn cap(length: u32) -> (cut: u32)
    ensures
        cut == capped(length as int),
{
    if length > COORD_MAX as u32 {
        COORD_MAX as u32
    } else {
        length
    }
}

/// The extent of a label: the sum of the advances of its characters, cut off
/// at the largest coordinate.
pub fn measure(fonts: &FontAtlas, label: &str) -> (extent: u32)
    ensures
        extent == capped(text_advance(fonts@, label@)),
        extent <= COORD_MAX,
{
    let limit: u64 = COORD_MAX as u64;
    let mut sum: u64 = 0;
    for c in it: label.chars()
        invariant
            it.seq() == label@,
            limit == COORD_MAX,
            sum <= limit,
            sum == capped(text_advance(fonts@, label@.take(it.index()))),
    {
        let advance: u32 = match fonts.glyph(c as u32) {
            Some(glyph) => glyph.advance,
            None => fonts.fallback_advance(),
        };
        proof {
            let done = label@.take(it.index());
            lemma_label_push(fonts@, done, c);
            assert(done.push(c) =~= label@.take(it.index() + 1));
        }
        sum = sum + advance as u64;
        if sum > limit {
            sum = limit;
        }
    }
    assert(label@.take(label@.len() as int) =~= label@);
    sum as u32
}

impl Frame {
    /// Draws one character at the pen and moves the pen past it.
    pub fn put_char(&mut self, fonts: &FontAtlas, c: char)
        requires
            old(self)@.wf(),
            fonts.wf(),
        ensures
            final(self)@ == old(self)@.put_char(fonts@, c),
            final(self)@.wf(),
    {
        let pen: Point = self.cursor.pos;
        match fonts.glyph(c as u32) {
            Some(glyph) => {
                assert(fonts@.glyphs.contains_key(c as u32));
                let quad = Quad {
                    min: Point {
                        x: shift(pen.x, glyph.left as i64),
                        y: shift(pen.y, glyph.top as i64),
                    },
                    max: Point {
                        x: shift(pen.x, glyph.left as i64 + glyph.uv.w as i64),
                        y: shift(pen.y, glyph.top as i64 + glyph.uv.h as i64),
                    },
                    uv_min: Texel { u: glyph.uv.x, v: glyph.uv.y },
                    uv_max: Texel { u: glyph.uv.x + glyph.uv.w, v: glyph.uv.y + glyph.uv.h },
                    color: text_color(),
                };
                proof {
                    lemma_with_quad_wf(self.list@, quad);
                }
                self.list.push_quad(quad);
                self.cursor.pos.x = shift(pen.x, glyph.advance as i64);
            },
            None => {
                self.cursor.pos.x = shift(pen.x, fonts.fallback_advance() as i64);
            },
        }
    }

    /// Draws a label at the pen, one quad per character that has a glyph,
    /// and moves the pen past it.
    pub fn put_text(&mut self, fonts: &FontAtlas, label: &str)
        requires
            old(self)@.wf(),
            fonts.wf(),
        ensures
            final(self)@ == old(self)@.put_text(fonts@, label@),
            final(self)@.wf(),
    {
        for c in it: label.chars()
            invariant
                it.seq() == label@,
                fonts.wf(),
                self@.wf(),
                self@ == old(self)@.put_text(fonts@, label@.take(it.index())),
        {
            proof {
                let done = label@.take(it.index());
                lemma_label_push(fonts@, done, c);
                assert(done.push(c) =~= label@.take(it.index() + 1));
            }
            self.put_char(fonts, c);
        }
        assert(label@.take(label@.len() as int) =~= label@);
    }

    /// Draws a button at the pen and says whether it was clicked.
    pub fn put_button(&mut self, fonts: &FontAtlas, label: &str) -> (clicked: bool)
        requires
            old(self)@.wf(),
            fonts.wf(),
        ensures
            final(self)@ == old(self)@.put_button(fonts@, label@),
            final(self)@.wf(),
            clicked == old(self)@.button_clicked(fonts@, label@),
    {
        let pen: Point = self.cursor.pos;
        let rect = Rect {
            x: pen.x,
            y: pen.y,
            w: measure(fonts, label) + 2 * BUTTON_PADDING,
            h: cap(self.cursor.line_advance) + 2 * BUTTON_PADDING,
        };
        let hovered: bool = rect.contains(self.pointer);
        let state = ButtonState::of(hovered, self.primary_down);
        let quad = Quad {
            min: rect.origin(),
            max: rect.far_corner(),
            uv_min: Texel { u: 0, v: 0 },
            uv_max: Texel { u: 0, v: 0 },
            color: state.color(),
        };
        proof {
            lemma_with_quad_wf(self.list@, quad);
        }
        self.list.push_quad(quad);
        self.cursor.pos = Point {
            x: shift(pen.x, BUTTON_PADDING as i64),
            y: shift(pen.y, BUTTON_PADDING as i64),
        };
        let ghost backed = self@;
        self.put_text(fonts, label);
        proof {
            lemma_put_text(backed, fonts@, label@);
        }
        self.cursor.pos = Point { x: shift(rect.x, rect.w as i64), y: rect.y };
        hovered && self.clicked
    }
}

} // verus!
