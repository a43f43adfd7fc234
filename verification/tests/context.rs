use imui::context::{handle_ui_event, Context, FrameError, DEFAULT_MARGIN};
use imui::draw::{Color, Vertex};
use imui::font::{RasterFont, RasterGlyph};
use imui::geometry::{Point, Texel, COORD_MAX};
use imui::input::{MouseButton, UiEvent};

const WHITE: Color = Color { r: 255, g: 255, b: 255 };
const IDLE: Color = Color { r: 64, g: 64, b: 64 };
const HOVERED: Color = Color { r: 96, g: 96, b: 96 };
const PRESSED: Color = Color { r: 32, g: 96, b: 160 };

fn glyph(codepoint: u32, width: u32, height: u32, advance: u32) -> RasterGlyph {
    let coverage = vec![200u8; (width * height) as usize];
    RasterGlyph { codepoint, width, height, left: 1, top: 2, advance, coverage }
}

/// The printable range: an empty bitmap for the space, six by ten texels
/// for every other glyph; the pen moves by four for the space and by seven
/// for every other glyph.
fn sample_font() -> RasterFont {
    let mut glyphs = vec![glyph(0x20, 0, 0, 4)];
    for codepoint in 0x21..=0x7Eu32 {
        glyphs.push(glyph(codepoint, 6, 10, 7));
    }
    RasterFont { pixel_size: 18, line_height: 21, glyphs }
}

fn context() -> Context {
    let mut ctx = Context::new();
    assert_eq!(ctx.fonts().add_font(&sample_font()), Ok(()));
    ctx
}

fn context_at(margin: Point) -> Context {
    let mut ctx = context();
    ctx.set_margin(margin);
    ctx
}

fn move_to(ctx: &mut Context, x: i32, y: i32) {
    handle_ui_event(ctx, &UiEvent::CursorMoved { x, y });
}

fn press(ctx: &mut Context, pressed: bool) {
    handle_ui_event(ctx, &UiEvent::MouseInput { button: MouseButton::Left, pressed });
}

fn vertex(x: i32, y: i32, u: u32, v: u32, color: Color) -> Vertex {
    Vertex { pos: Point { x, y }, uv: Texel { u, v }, color }
}

/// Draws one button in a frame of its own; gives its answer and the colour
/// of its background.
fn button_frame(ctx: &mut Context, label: &str) -> (bool, Color) {
    assert_eq!(ctx.begin_frame(), Ok(()));
    let clicked = ctx.button(label).unwrap();
    let list = ctx.end_frame().unwrap();
    (clicked, list.vtx_buf[0].color)
}

#[test]
fn new_context_starts_idle() {
    let mut ctx = Context::new();
    assert!(!ctx.frame_active());
    assert_eq!(DEFAULT_MARGIN, 8);
    assert_eq!(ctx.input().cursor_pos, Point { x: 0, y: 0 });
    assert_eq!(ctx.input().mouse_buttons, [false; 4]);
    assert_eq!(ctx.fonts().size(), (1, 1));
}

#[test]
fn empty_frame_yields_an_empty_draw_list() {
    let mut ctx = context();
    assert_eq!(ctx.begin_frame(), Ok(()));
    assert!(ctx.frame_active());
    let list = ctx.end_frame().unwrap();
    assert!(list.vtx_buf.is_empty());
    assert!(list.idx_buf.is_empty());
    assert!(!ctx.frame_active());
}

#[test]
fn empty_frame_without_a_font_is_empty_too() {
    let mut ctx = Context::new();
    assert_eq!(ctx.begin_frame(), Ok(()));
    let list = ctx.end_frame().unwrap();
    assert_eq!(list.vtx_buf.len(), 0);
    assert_eq!(list.idx_buf.len(), 0);
}

#[test]
fn text_emits_one_quad_per_glyph() {
    let mut ctx = context();
    ctx.begin_frame().unwrap();
    assert_eq!(ctx.text("Hi"), Ok(()));
    let list = ctx.end_frame().unwrap();
    assert_eq!(
        list.vtx_buf,
        vec![
            vertex(9, 10, 21, 11, WHITE),
            vertex(15, 10, 27, 11, WHITE),
            vertex(15, 20, 27, 21, WHITE),
            vertex(9, 20, 21, 21, WHITE),
            vertex(16, 10, 0, 22, WHITE),
            vertex(22, 10, 6, 22, WHITE),
            vertex(22, 20, 6, 32, WHITE),
            vertex(16, 20, 0, 32, WHITE),
        ]
    );
    assert_eq!(list.idx_buf, vec![0, 1, 2, 0, 2, 3, 4, 5, 6, 4, 6, 7]);
}

#[test]
fn text_emits_four_vertices_and_six_indices_per_character() {
    let label = "hello floppa";
    let mut ctx = context();
    ctx.begin_frame().unwrap();
    ctx.text(label).unwrap();
    let list = ctx.end_frame().unwrap();
    assert_eq!(list.vtx_buf.len(), 4 * label.len());
    assert_eq!(list.idx_buf.len(), 6 * label.len());
    for (i, index) in list.idx_buf.iter().enumerate() {
        let base = 4 * (i / 6) as u32;
        assert_eq!(*index, base + [0, 1, 2, 0, 2, 3][i % 6]);
    }
}

#[test]
fn text_advances_by_the_sum_of_the_advances() {
    let mut ctx = context();
    ctx.begin_frame().unwrap();
    ctx.text("hello floppa").unwrap();
    ctx.text("|").unwrap();
    let list = ctx.end_frame().unwrap();
    let last = list.vtx_buf.len() - 4;
    assert_eq!(list.vtx_buf[last].pos, Point { x: 8 + 11 * 7 + 4 + 1, y: 10 });
}

#[test]
fn text_skips_characters_without_a_glyph() {
    let mut ctx = context();
    ctx.begin_frame().unwrap();
    ctx.text("a\u{e9}\nb").unwrap();
    let list = ctx.end_frame().unwrap();
    assert_eq!(list.vtx_buf.len(), 8);
    assert_eq!(list.idx_buf.len(), 12);
    assert_eq!(list.vtx_buf[0].pos, Point { x: 9, y: 10 });
    assert_eq!(list.vtx_buf[4].pos, Point { x: 8 + 7 + 9 + 9 + 1, y: 10 });
}

#[test]
fn text_of_nothing_changes_nothing() {
    let mut ctx = context();
    ctx.begin_frame().unwrap();
    ctx.text("").unwrap();
    ctx.text("x").unwrap();
    let list = ctx.end_frame().unwrap();
    assert_eq!(list.vtx_buf.len(), 4);
    assert_eq!(list.vtx_buf[0].pos, Point { x: 9, y: 10 });
}

#[test]
fn text_without_a_font_only_moves_the_pen() {
    let mut ctx = Context::new();
    ctx.begin_frame().unwrap();
    ctx.text("abc").unwrap();
    let list = ctx.end_frame().unwrap();
    assert!(list.vtx_buf.is_empty());
    assert!(list.idx_buf.is_empty());
}

#[test]
fn pen_stops_at_the_end_of_the_coordinate_range() {
    let mut ctx = context_at(Point { x: COORD_MAX - 10, y: i32::MAX });
    ctx.begin_frame().unwrap();
    ctx.text("ab").unwrap();
    ctx.text("c").unwrap();
    let list = ctx.end_frame().unwrap();
    assert_eq!(list.vtx_buf[0].pos, Point { x: COORD_MAX - 9, y: COORD_MAX });
    assert_eq!(list.vtx_buf[4].pos, Point { x: COORD_MAX - 2, y: COORD_MAX });
    assert_eq!(list.vtx_buf[5].pos, Point { x: COORD_MAX, y: COORD_MAX });
    assert_eq!(list.vtx_buf[8].pos, Point { x: COORD_MAX, y: COORD_MAX });
}

#[test]
fn button_draws_background_then_label() {
    let mut ctx = context();
    ctx.begin_frame().unwrap();
    assert_eq!(ctx.button("OK"), Ok(false));
    let list = ctx.end_frame().unwrap();
    assert_eq!(list.vtx_buf.len(), 12);
    assert_eq!(list.idx_buf.len(), 18);
    assert_eq!(
        list.vtx_buf[0..4],
        [
            vertex(8, 8, 0, 0, IDLE),
            vertex(38, 8, 0, 0, IDLE),
            vertex(38, 45, 0, 0, IDLE),
            vertex(8, 45, 0, 0, IDLE),
        ]
    );
    assert_eq!(
        list.vtx_buf[4..8],
        [
            vertex(17, 18, 70, 11, WHITE),
            vertex(23, 18, 76, 11, WHITE),
            vertex(23, 28, 76, 21, WHITE),
            vertex(17, 28, 70, 21, WHITE),
        ]
    );
    assert_eq!(list.vtx_buf[8], vertex(24, 18, 42, 11, WHITE));
}

#[test]
fn button_moves_the_pen_past_itself() {
    let mut ctx = context();
    ctx.begin_frame().unwrap();
    ctx.button("OK").unwrap();
    ctx.text("x").unwrap();
    ctx.button("").unwrap();
    let list = ctx.end_frame().unwrap();
    assert_eq!(list.vtx_buf[12].pos, Point { x: 39, y: 10 });
    assert_eq!(list.vtx_buf[16].pos, Point { x: 45, y: 8 });
    assert_eq!(list.vtx_buf[18].pos, Point { x: 61, y: 45 });
}

#[test]
fn button_outside_pointer_is_false_twice() {
    let mut ctx = context();
    move_to(&mut ctx, 300, 300);
    press(&mut ctx, true);
    ctx.begin_frame().unwrap();
    assert_eq!(ctx.button("OK"), Ok(false));
    assert_eq!(ctx.button("OK"), Ok(false));
    let list = ctx.end_frame().unwrap();
    assert_eq!(list.vtx_buf[0].color, IDLE);
    assert_eq!(list.vtx_buf[12].color, IDLE);
    assert_eq!(button_frame(&mut ctx, "OK"), (false, IDLE));
    press(&mut ctx, false);
    assert_eq!(button_frame(&mut ctx, "OK"), (false, IDLE));
}

#[test]
fn button_never_looks_pressed_while_the_pointer_is_outside() {
    let mut ctx = context();
    for (x, y) in [(7, 8), (8, 7), (38, 8), (8, 45), (38, 45), (-5, 20), (20, 500)] {
        move_to(&mut ctx, x, y);
        press(&mut ctx, true);
        assert_eq!(button_frame(&mut ctx, "OK"), (false, IDLE));
        press(&mut ctx, false);
        assert_eq!(button_frame(&mut ctx, "OK"), (false, IDLE));
    }
}

#[test]
fn button_rectangle_includes_its_top_left_and_excludes_its_bottom_right() {
    let mut ctx = context();
    for (x, y) in [(8, 8), (37, 8), (8, 44), (37, 44), (20, 20)] {
        move_to(&mut ctx, x, y);
        assert_eq!(button_frame(&mut ctx, "OK"), (false, HOVERED));
    }
}

#[test]
fn button_is_clicked_once_per_press() {
    let mut ctx = context();
    move_to(&mut ctx, 20, 20);
    assert_eq!(button_frame(&mut ctx, "OK"), (false, HOVERED));
    press(&mut ctx, true);
    assert_eq!(button_frame(&mut ctx, "OK"), (true, PRESSED));
    assert_eq!(button_frame(&mut ctx, "OK"), (false, PRESSED));
    assert_eq!(button_frame(&mut ctx, "OK"), (false, PRESSED));
    move_to(&mut ctx, 21, 21);
    assert_eq!(button_frame(&mut ctx, "OK"), (false, PRESSED));
    press(&mut ctx, false);
    assert_eq!(button_frame(&mut ctx, "OK"), (false, HOVERED));
    press(&mut ctx, true);
    assert_eq!(button_frame(&mut ctx, "OK"), (true, PRESSED));
    assert_eq!(button_frame(&mut ctx, "OK"), (false, PRESSED));
}

#[test]
fn press_outside_then_drag_inside_is_no_click() {
    let mut ctx = context();
    move_to(&mut ctx, 300, 300);
    press(&mut ctx, true);
    assert_eq!(button_frame(&mut ctx, "OK"), (false, IDLE));
    move_to(&mut ctx, 20, 20);
    assert_eq!(button_frame(&mut ctx, "OK"), (false, PRESSED));
}

#[test]
fn release_and_press_between_two_frames_is_not_seen() {
    let mut ctx = context();
    move_to(&mut ctx, 20, 20);
    press(&mut ctx, true);
    assert_eq!(button_frame(&mut ctx, "OK"), (true, PRESSED));
    press(&mut ctx, false);
    press(&mut ctx, true);
    assert_eq!(button_frame(&mut ctx, "OK"), (false, PRESSED));
}

#[test]
fn a_frame_sees_the_input_as_of_its_beginning() {
    let mut ctx = context();
    move_to(&mut ctx, 20, 20);
    ctx.begin_frame().unwrap();
    press(&mut ctx, true);
    move_to(&mut ctx, 300, 300);
    assert_eq!(ctx.button("OK"), Ok(false));
    let list = ctx.end_frame().unwrap();
    assert_eq!(list.vtx_buf[0].color, HOVERED);
    move_to(&mut ctx, 20, 20);
    assert_eq!(button_frame(&mut ctx, "OK"), (true, PRESSED));
}

#[test]
fn other_buttons_do_not_click() {
    let mut ctx = context();
    move_to(&mut ctx, 20, 20);
    handle_ui_event(&mut ctx, &UiEvent::MouseInput { button: MouseButton::Right, pressed: true });
    handle_ui_event(&mut ctx, &UiEvent::MouseInput { button: MouseButton::Middle, pressed: true });
    assert_eq!(button_frame(&mut ctx, "OK"), (false, HOVERED));
}

#[test]
fn scenario_ok_button_at_fifty_fifty() {
    let mut ctx = context_at(Point { x: 50, y: 50 });
    move_to(&mut ctx, 55, 55);
    assert_eq!(button_frame(&mut ctx, "OK"), (false, HOVERED));
    press(&mut ctx, true);
    ctx.begin_frame().unwrap();
    assert_eq!(ctx.button("OK"), Ok(true));
    let list = ctx.end_frame().unwrap();
    assert_eq!(list.vtx_buf[0], vertex(50, 50, 0, 0, PRESSED));
    assert_eq!(list.vtx_buf[2], vertex(50 + 14 + 16, 50 + 21 + 16, 0, 0, PRESSED));
    assert_eq!(button_frame(&mut ctx, "OK"), (false, PRESSED));
    press(&mut ctx, false);
    assert_eq!(button_frame(&mut ctx, "OK"), (false, HOVERED));
}

#[test]
fn widget_calls_outside_a_frame_are_rejected() {
    let mut ctx = context();
    assert_eq!(ctx.text("x"), Err(FrameError::NoActiveFrame));
    assert_eq!(ctx.button("x"), Err(FrameError::NoActiveFrame));
    ctx.begin_frame().unwrap();
    ctx.text("x").unwrap();
    ctx.end_frame().unwrap();
    assert_eq!(ctx.text("x"), Err(FrameError::NoActiveFrame));
    assert_eq!(ctx.button("x"), Err(FrameError::NoActiveFrame));
    ctx.begin_frame().unwrap();
    let list = ctx.end_frame().unwrap();
    assert!(list.vtx_buf.is_empty());
}

#[test]
fn end_frame_twice_is_rejected() {
    let mut ctx = context();
    assert!(matches!(ctx.end_frame(), Err(FrameError::NoActiveFrame)));
    ctx.begin_frame().unwrap();
    assert!(ctx.end_frame().is_ok());
    assert!(matches!(ctx.end_frame(), Err(FrameError::NoActiveFrame)));
}

#[test]
fn begin_frame_twice_is_rejected() {
    let mut ctx = context();
    ctx.begin_frame().unwrap();
    ctx.text("ab").unwrap();
    assert_eq!(ctx.begin_frame(), Err(FrameError::FrameActive));
    let list = ctx.end_frame().unwrap();
    assert_eq!(list.vtx_buf.len(), 8);
}

#[test]
fn each_frame_starts_from_an_empty_draw_list() {
    let mut ctx = context();
    ctx.begin_frame().unwrap();
    ctx.text("abc").unwrap();
    let first = ctx.end_frame().unwrap();
    ctx.begin_frame().unwrap();
    ctx.text("a").unwrap();
    let second = ctx.end_frame().unwrap();
    assert_eq!(first.vtx_buf.len(), 12);
    assert_eq!(second.vtx_buf.len(), 4);
    assert_eq!(second.vtx_buf[0].pos, first.vtx_buf[0].pos);
    assert_eq!(second.idx_buf, vec![0, 1, 2, 0, 2, 3]);
}

#[test]
fn margin_is_brought_into_the_coordinate_range() {
    let mut ctx = context_at(Point { x: i32::MIN, y: -3 });
    ctx.begin_frame().unwrap();
    ctx.button("").unwrap();
    let list = ctx.end_frame().unwrap();
    assert_eq!(list.vtx_buf[0].pos, Point { x: -COORD_MAX, y: -3 });
    assert_eq!(list.vtx_buf[2].pos, Point { x: -COORD_MAX + 16, y: -3 + 37 });
}
