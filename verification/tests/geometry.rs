use imui::draw::{Color, DrawList, Quad, Vertex, MAX_QUADS};
use imui::frame::{cap, text_color, ButtonState, BUTTON_PADDING};
use imui::geometry::{shift, Point, Rect, Texel, COORD_MAX};

#[test]
fn rectangle_contains_its_left_and_top_edges_only() {
    let rect = Rect { x: 10, y: 20, w: 30, h: 5 };
    assert!(rect.contains(Point { x: 10, y: 20 }));
    assert!(rect.contains(Point { x: 39, y: 24 }));
    assert!(!rect.contains(Point { x: 40, y: 24 }));
    assert!(!rect.contains(Point { x: 39, y: 25 }));
    assert!(!rect.contains(Point { x: 9, y: 20 }));
    assert!(!rect.contains(Point { x: 10, y: 19 }));
}

#[test]
fn empty_rectangle_contains_nothing() {
    let rect = Rect { x: 0, y: 0, w: 0, h: 10 };
    assert!(!rect.contains(Point { x: 0, y: 0 }));
    let flat = Rect { x: 0, y: 0, w: 10, h: 0 };
    assert!(!flat.contains(Point { x: 0, y: 0 }));
}

#[test]
fn rectangle_at_the_end_of_the_number_range() {
    let rect = Rect { x: i32::MAX - 1, y: i32::MIN, w: u32::MAX, h: u32::MAX };
    assert!(rect.contains(Point { x: i32::MAX, y: i32::MAX - 1 }));
    assert!(!rect.contains(Point { x: i32::MAX - 2, y: 0 }));
    assert!(!rect.contains(Point { x: i32::MAX, y: i32::MAX }));
    assert_eq!(rect.origin(), Point { x: i32::MAX - 1, y: i32::MIN });
    assert_eq!(rect.far_corner(), Point { x: COORD_MAX, y: COORD_MAX });
}

#[test]
fn shift_stops_at_the_coordinate_range() {
    assert_eq!(COORD_MAX, 1 << 24);
    assert_eq!(shift(5, 7), 12);
    assert_eq!(shift(5, -7), -2);
    assert_eq!(shift(COORD_MAX, 1), COORD_MAX);
    assert_eq!(shift(COORD_MAX - 3, 3), COORD_MAX);
    assert_eq!(shift(-COORD_MAX, -1), -COORD_MAX);
    assert_eq!(shift(i32::MAX, i64::MAX), COORD_MAX);
    assert_eq!(shift(i32::MIN, i64::MIN), -COORD_MAX);
    assert_eq!(shift(i32::MAX, i64::MIN), -COORD_MAX);
    assert_eq!(shift(i32::MIN, i64::MAX), COORD_MAX);
    assert_eq!(shift(i32::MAX, -(i32::MAX as i64)), 0);
}

#[test]
fn clamp_brings_a_point_into_the_range() {
    assert_eq!(Point { x: 3, y: -4 }.clamp(), Point { x: 3, y: -4 });
    assert_eq!(
        Point { x: i32::MAX, y: i32::MIN }.clamp(),
        Point { x: COORD_MAX, y: -COORD_MAX }
    );
}

#[test]
fn cap_cuts_lengths_at_the_largest_coordinate() {
    assert_eq!(cap(0), 0);
    assert_eq!(cap(21), 21);
    assert_eq!(cap(COORD_MAX as u32), COORD_MAX as u32);
    assert_eq!(cap(COORD_MAX as u32 + 1), COORD_MAX as u32);
    assert_eq!(cap(u32::MAX), COORD_MAX as u32);
}

#[test]
fn button_looks() {
    assert_eq!(BUTTON_PADDING, 8);
    assert_eq!(ButtonState::of(false, false), ButtonState::Idle);
    assert_eq!(ButtonState::of(false, true), ButtonState::Idle);
    assert_eq!(ButtonState::of(true, false), ButtonState::Hovered);
    assert_eq!(ButtonState::of(true, true), ButtonState::Pressed);
    assert_eq!(ButtonState::Idle.color(), Color { r: 64, g: 64, b: 64 });
    assert_eq!(ButtonState::Hovered.color(), Color { r: 96, g: 96, b: 96 });
    assert_eq!(ButtonState::Pressed.color(), Color { r: 32, g: 96, b: 160 });
    assert_eq!(text_color(), Color { r: 255, g: 255, b: 255 });
}

#[test]
fn push_quad_appends_two_triangles() {
    assert_eq!(MAX_QUADS, 1 << 28);
    let color = Color { r: 1, g: 2, b: 3 };
    let quad = Quad {
        min: Point { x: 1, y: 2 },
        max: Point { x: 3, y: 4 },
        uv_min: Texel { u: 5, v: 6 },
        uv_max: Texel { u: 7, v: 8 },
        color,
    };
    let mut list = DrawList::new();
    list.push_quad(quad);
    list.push_quad(quad);
    assert_eq!(
        list.vtx_buf[0..4],
        [
            Vertex { pos: Point { x: 1, y: 2 }, uv: Texel { u: 5, v: 6 }, color },
            Vertex { pos: Point { x: 3, y: 2 }, uv: Texel { u: 7, v: 6 }, color },
            Vertex { pos: Point { x: 3, y: 4 }, uv: Texel { u: 7, v: 8 }, color },
            Vertex { pos: Point { x: 1, y: 4 }, uv: Texel { u: 5, v: 8 }, color },
        ]
    );
    assert_eq!(list.vtx_buf[4..8], list.vtx_buf[0..4]);
    assert_eq!(list.idx_buf, vec![0, 1, 2, 0, 2, 3, 4, 5, 6, 4, 6, 7]);
}
