//! The interface context: the atlas, the input state, and the frame in
//! progress, if there is one.
//!
//! A frame is begun, filled by widget calls, and ended; ending it hands the
//! draw list over. The context knows whether a frame is open and turns down
//! every call that comes at the wrong time.

use vstd::prelude::*;
use crate::atlas::{AtlasView, FontAtlas};
use crate::draw::{DrawList, DrawListView, MAX_QUADS};
use crate::frame::{
    lemma_button_background, lemma_label_push, lemma_put_text, mapped_count, quads_added,
    text_advance, ButtonState, Frame, FrameView, LayoutCursor,
};
use crate::geometry::{clamp_coord, Point, COORD_MAX};
use crate::input::{InputState, UiEvent};

verus! {

/// Distance of the first widget from the left and the top edge of the window,
/// unless the margin is set otherwise.
pub const DEFAULT_MARGIN: i32 = 8;

/// A call that came at the wrong time.
#[derive(Clone, Copy, Debug, PartialEq, Eq, Structural)]
pub enum FrameError {
    /// A widget call or the end of a frame, while no frame is open.
    NoActiveFrame,
    /// The beginning of a frame, while one is open.
    FrameActive,
}

/// The mathematical content of a context.
#[verifier::ext_equal]
pub struct ContextView {
    pub fonts: AtlasView,
    pub input: InputState,
    /// Where the pen starts in each frame.
    pub margin: Point,
    /// Whether the primary button was down when the latest frame began.
    pub last_primary: bool,
    /// The frame in progress.
    pub frame: Option<FrameView>,
}

impl ContextView {
    /// A context is well formed when its atlas is, its margin lies inside
    /// the coordinate range, and the frame in progress, if any, is well
    /// formed.
    pub open spec fn wf(self) -> bool {
        &&& self.fonts.wf()
        &&& self.margin.in_range()
        &&& self.frame matches Some(frame) ==> frame.wf()
    }

    /// The context with a fresh frame open. The frame sees the input as it
    /// is now; its draw list is empty and its pen is at the margin.
    pub open spec fn begin_frame(self) -> ContextView {
        ContextView {
            last_primary: self.input.spec_primary(),
            frame: Some(
                FrameView {
                    pointer: self.input.cursor_pos,
                    primary_down: self.input.spec_primary(),
                    clicked: self.input.spec_primary() && !self.last_primary,
                    cursor: LayoutCursor { pos: self.margin, line_advance: self.fonts.line_height },
                    list: DrawListView::empty(),
                },
            ),
            ..self
        }
    }

    /// The context after a label is drawn in the open frame.
    pub open spec fn text(self, label: Seq<char>) -> ContextView {
        match self.frame {
            Some(frame) => ContextView { frame: Some(frame.put_text(self.fonts, label)), ..self },
            None => self,
        }
    }

    /// The context after a button is drawn in the open frame.
    pub open spec fn button(self, label: Seq<char>) -> ContextView {
        match self.frame {
            Some(frame) => ContextView { frame: Some(frame.put_button(self.fonts, label)), ..self },
            None => self,
        }
    }

    /// Whether a button drawn now reports a click.
    pub open spec fn button_clicked(self, label: Seq<char>) -> bool {
        self.frame matches Some(frame) && frame.button_clicked(self.fonts, label)
    }

    /// The context with no frame open.
    pub open spec fn end_frame(self) -> ContextView {
        ContextView { frame: None, ..self }
    }

    /// The draw list that the end of the frame hands over.
    pub open spec fn handed_over(self) -> Option<DrawListView> {
        match self.frame {
            Some(frame) => Some(frame.list),
            None => None,
        }
    }

    /// The context after an event of the window.
    pub open spec fn after(self, event: UiEvent) -> ContextView {
        ContextView { input: self.input.after(event), ..self }
    }
}

/// The interface context.
pub struct Context {
    fonts: FontAtlas,
    input: InputState,
    margin: Point,
    last_primary: bool,
    frame: Option<Frame>,
}

impl View for Context {
    type V = ContextView;

    closed spec fn view(&self) -> ContextView {
        ContextView {
            fonts: self.fonts@,
            input: self.input,
            margin: self.margin,
            last_primary: self.last_primary,
            frame: match self.frame {
                Some(frame) => Some(frame@),
                None => None,
            },
        }
    }
}

impl Context {
    /// Whether the context is well formed.
    pub open spec fn wf(&self) -> bool {
        self@.wf()
    }

    /// A context with an empty atlas, no button held, the default margin and
    /// no frame open.
    pub fn new() -> (ctx: Context)
        ensures
            ctx.wf(),
            ctx@.fonts == AtlasView::blank(),
            ctx@.input.cursor_pos == (Point { x: 0, y: 0 }),
            forall|i: int| 0 <= i < 4 ==> !ctx@.input.mouse_buttons@[i],
            ctx@.margin == (Point { x: DEFAULT_MARGIN, y: DEFAULT_MARGIN }),
            !ctx@.last_primary,
            ctx@.frame is None,
    {
        Context {
            fonts: FontAtlas::new(),
            input: InputState::new(),
            margin: Point { x: DEFAULT_MARGIN, y: DEFAULT_MARGIN },
            last_primary: false,
            frame: None,
        }
    }

    /// The atlas, to load a font into or to build the texture from.
    pub fn fonts(&mut self) -> (fonts: &mut FontAtlas)
        ensures
            fonts@ == old(self)@.fonts,
            final(self)@ == (ContextView { fonts: final(fonts)@, ..old(self)@ }),
    {
        &mut self.fonts
    }

    /// The input state, for the window's events to overwrite.
    pub fn input(&mut self) -> (input: &mut InputState)
        ensures
            *input == old(self)@.input,
            final(self)@ == (ContextView { input: *final(input), ..old(self)@ }),
    {
        &mut self.input
    }

    /// Sets where the pen starts in the frames to come. A margin outside the
    /// coordinate range is moved to the nearest point inside it.
    pub fn set_margin(&mut self, margin: Point)
        ensures
            final(self)@ == (ContextView { margin: margin.clamped(), ..old(self)@ }),
    {
        self.margin = margin.clamp();
    }

    /// Whether a frame is open.
    pub fn frame_active(&self) -> (active: bool)
        ensures
            active == self@.frame is Some,
    {
        self.frame.is_some()
    }

    /// Opens a frame: empties the draw list, puts the pen at the margin, and
    /// takes the snapshot of the input that the frame's widgets will see.
    /// While a frame is open, no other can begin.
    pub fn begin_frame(&mut self) -> (result: Result<(), FrameError>)
        requires
            old(self).wf(),
        ensures
            final(self).wf(),
            match result {
                Ok(()) => old(self)@.frame is None && final(self)@ == old(self)@.begin_frame(),
                Err(error) => old(self)@.frame is Some && error == FrameError::FrameActive
                    && final(self)@ == old(self)@,
            },
    {
        if self.frame.is_some() {
            return Err(FrameError::FrameActive);
        }
        let down: bool = self.input.primary();
        let frame = Frame {
            pointer: self.input.cursor_pos,
            primary_down: down,
            clicked: down && !self.last_primary,
            cursor: LayoutCursor { pos: self.margin, line_advance: self.fonts.line_height() },
            list: DrawList::new(),
        };
        self.last_primary = down;
        self.frame = Some(frame);
        Ok(())
    }

    /// Draws a label at the pen: one quad for every character that has a
    /// glyph. The pen moves to the right by the sum of the advances, a
    /// character without a glyph counting with the fallback advance.
    pub fn text(&mut self, label: &str) -> (result: Result<(), FrameError>)
        requires
            old(self).wf(),
        ensures
            final(self).wf(),
            final(self)@ == old(self)@.text(label@),
            match result {
                Ok(()) => old(self)@.frame is Some,
                Err(error) => old(self)@.frame is None && error == FrameError::NoActiveFrame,
            },
            old(self)@.frame matches Some(before) ==> {
                let after = final(self)@.frame->Some_0;
                let added = quads_added(before, old(self)@.fonts, label@);
                &&& after.cursor.pos.x == clamp_coord(
                    before.cursor.pos.x + text_advance(old(self)@.fonts, label@),
                )
                &&& after.cursor.pos.y == before.cursor.pos.y
                &&& after.list.vertices.len() == before.list.vertices.len() + 4 * added
                &&& after.list.indices.len() == before.list.indices.len() + 6 * added
            },
    {
        match &mut self.frame {
            Some(frame) => {
                proof {
                    lemma_put_text(frame@, self.fonts@, label@);
                }
                frame.put_text(&self.fonts, label);
                Ok(())
            },
            None => Err(FrameError::NoActiveFrame),
        }
    }

    /// Draws a button at the pen and says whether it was clicked: whether
    /// the pointer is over it and the primary button went down since the
    /// previous frame. The background comes first, in the colour of the
    /// button's look, then the label; the pen moves past the button.
    pub fn button(&mut self, label: &str) -> (result: Result<bool, FrameError>)
        requires
            old(self).wf(),
        ensures
            final(self).wf(),
            final(self)@ == old(self)@.button(label@),
            match result {
                Ok(clicked) => old(self)@.frame is Some && clicked == old(self)@.button_clicked(
                    label@,
                ),
                Err(error) => old(self)@.frame is None && error == FrameError::NoActiveFrame,
            },
    {
        match &mut self.frame {
            Some(frame) => {
                let clicked: bool = frame.put_button(&self.fonts, label);
                Ok(clicked)
            },
            None => Err(FrameError::NoActiveFrame),
        }
    }

    /// Closes the frame and hands its draw list over.
    pub fn end_frame(&mut self) -> (result: Result<DrawList, FrameError>)
        requires
            old(self).wf(),
        ensures
            final(self).wf(),
            final(self)@ == old(self)@.end_frame(),
            match result {
                Ok(list) => old(self)@.handed_over() == Some(list@) && list@.wf(),
                Err(error) => old(self)@.frame is None && error == FrameError::NoActiveFrame,
            },
    {
        match self.frame.take() {
            Some(frame) => Ok(frame.list),
            None => Err(FrameError::NoActiveFrame),
        }
    }
}

/// Lets one event of the window overwrite the input state.
pub fn handle_ui_event(ctx: &mut Context, event: &UiEvent)
    ensures
        final(ctx)@ == old(ctx)@.after(*event),
{
    ctx.input.apply(event);
}

/// Text moves the pen by exactly the sum of the advances of its characters,
/// the fallback advance standing for a character without a glyph, and adds
/// exactly four vertices and six indices for every character that has a
/// glyph. This holds wherever the pen stays inside the coordinate range and
/// the draw list has room for the quads.
pub proof fn law_text_advances_and_emits(ctx: ContextView, label: Seq<char>)
    requires
        ctx.wf(),
        ctx.frame is Some,
        ctx.frame->Some_0.cursor.pos.x + text_advance(ctx.fonts, label) <= COORD_MAX,
        ctx.frame->Some_0.list.quads() + mapped_count(ctx.fonts, label) <= MAX_QUADS,
    ensures
        ({
            let before = ctx.frame->Some_0;
            let after = ctx.text(label).frame->Some_0;
            &&& after.cursor.pos.x == before.cursor.pos.x + text_advance(ctx.fonts, label)
            &&& after.cursor.pos.y == before.cursor.pos.y
            &&& after.list.vertices.len() == before.list.vertices.len() + 4 * mapped_count(
                ctx.fonts,
                label,
            )
            &&& after.list.indices.len() == before.list.indices.len() + 6 * mapped_count(
                ctx.fonts,
                label,
            )
        }),
{
    lemma_put_text(ctx.frame->Some_0, ctx.fonts, label);
    lemma_label_push(ctx.fonts, label, ' ');
}

/// A button that the pointer is not over reports no click and shows the
/// idle look, whatever the buttons of the pointing device do; so it does
/// each time it is called. Its background quad has the idle colour.
pub proof fn law_button_outside_is_idle(ctx: ContextView, label: Seq<char>)
    requires
        ctx.wf(),
        ctx.frame is Some,
        !ctx.frame->Some_0.button_hovered(ctx.fonts, label),
    ensures
        !ctx.button_clicked(label),
        ctx.frame->Some_0.button_state(ctx.fonts, label) == ButtonState::Idle,
        ctx.frame->Some_0.list.has_room() ==> forall|k: int|
            0 <= k < 4 ==> (#[trigger] ctx.button(label).frame->Some_0.list.vertices[ctx.frame->Some_0.list.vertices.len()
                + k]).color == ButtonState::Idle.spec_color(),
{
    lemma_button_background(ctx.frame->Some_0, ctx.fonts, label);
}

/// Two buttons in a row that the pointer is over neither of: both report no
/// click, and neither shows the pressed look.
pub proof fn law_button_outside_twice(ctx: ContextView, first: Seq<char>, second: Seq<char>)
    requires
        ctx.wf(),
        ctx.frame is Some,
        !ctx.frame->Some_0.button_hovered(ctx.fonts, first),
        !ctx.button(first).frame->Some_0.button_hovered(ctx.fonts, second),
    ensures
        !ctx.button_clicked(first),
        !ctx.button(first).button_clicked(second),
        ctx.frame->Some_0.button_state(ctx.fonts, first) != ButtonState::Pressed,
        ctx.button(first).frame->Some_0.button_state(ctx.fonts, second) != ButtonState::Pressed,
{
}

/// A button reports a click in exactly the frames that begin with the
/// primary button down, after a frame that began with it up (or after none),
/// and with the pointer over the button.
pub proof fn law_click_on_press_edge(ctx: ContextView, label: Seq<char>)
    requires
        ctx.frame is None,
    ensures
        ctx.begin_frame().button_clicked(label) <==> {
            &&& ctx.input.spec_primary()
            &&& !ctx.last_primary
            &&& ctx.begin_frame().frame->Some_0.button_hovered(ctx.fonts, label)
        },
{
}

/// A press is reported once. After a frame that began with the primary
/// button down, the next frame reports no click while the button is still
/// down, wherever the pointer is and whichever widgets the frames hold; and
/// so does every frame after it until the button is seen up.
pub proof fn law_held_button_does_not_repeat(
    ctx: ContextView,
    label: Seq<char>,
    held: InputState,
    again: Seq<char>,
)
    requires
        ctx.wf(),
        ctx.frame is None,
        ctx.input.spec_primary(),
        held.spec_primary(),
    ensures
        ({
            let first = ctx.begin_frame().button(label).end_frame();
            let second = (ContextView { input: held, ..first }).begin_frame();
            &&& first.last_primary
            &&& !second.button_clicked(again)
            &&& !second.button(again).button_clicked(again)
            &&& second.button(again).end_frame().last_primary
        }),
{
    let first = ctx.begin_frame().button(label).end_frame();
    let second = (ContextView { input: held, ..first }).begin_frame();
    assert(second.frame->Some_0.list.quads() == 0);
    lemma_button_background(second.frame->Some_0, second.fonts, again);
}

/// A frame that is ended right after it began hands over an empty draw list.
pub proof fn law_empty_frame(ctx: ContextView)
    ensures
        ctx.begin_frame().handed_over() == Some(DrawListView::empty()),
        ctx.begin_frame().handed_over()->Some_0.vertices.len() == 0,
        ctx.begin_frame().handed_over()->Some_0.indices.len() == 0,
{
}

} // verus!
