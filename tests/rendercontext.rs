use meez3d::color::Color;
use meez3d::constants::{CIRCLE_STEPS, MAX_LIGHTS};
use meez3d::geometry::{Point, Rect};
use meez3d::rendercontext::{RenderContext, RenderLayer, SpriteBatch, SpriteBatchEntry};
use meez3d::sprite::Sprite;

fn red() -> Color {
    Color { r: 255, g: 0, b: 0, a: 255 }
}

#[test]
fn fill_rect_round_trip() {
    let mut batch = SpriteBatch::new();
    let rect = Rect { x: 3, y: 4, w: 5, h: 6 };
    batch.fill_rect(rect, red());
    assert_eq!(batch.entries.len(), 1);
    assert_eq!(batch.entries[0], SpriteBatchEntry::FillRect { destination: rect, color: red() });
}

#[test]
fn horizontal_line_is_rect() {
    let mut batch = SpriteBatch::new();
    batch.draw_line(Point::new(10, 20), Point::new(2, 20), red(), 4);
    batch.draw_line(Point::new(2, 20), Point::new(10, 20), red(), 3);
    let expected = Rect { x: 2, y: 18, w: 8, h: 4 };
    assert_eq!(batch.entries[0], SpriteBatchEntry::FillRect { destination: expected, color: red() });
    let expected = Rect { x: 2, y: 19, w: 8, h: 3 };
    assert_eq!(batch.entries[1], SpriteBatchEntry::FillRect { destination: expected, color: red() });
}

#[test]
fn vertical_line_is_rect() {
    let mut batch = SpriteBatch::new();
    batch.draw_line(Point::new(7, 30), Point::new(7, 10), red(), 1);
    let expected = Rect { x: 7, y: 10, w: 1, h: 20 };
    assert_eq!(batch.entries[0], SpriteBatchEntry::FillRect { destination: expected, color: red() });
}

#[test]
fn line_with_negative_width_rounds_toward_zero() {
    let mut batch = SpriteBatch::new();
    batch.draw_line(Point::new(0, 10), Point::new(4, 10), red(), -3);
    let expected = Rect { x: 0, y: 11, w: 4, h: -3 };
    assert_eq!(batch.entries[0], SpriteBatchEntry::FillRect { destination: expected, color: red() });
}

#[test]
fn diagonal_line_is_line() {
    let mut batch = SpriteBatch::new();
    batch.draw_line(Point::new(0, 0), Point::new(5, 7), red(), 3);
    assert_eq!(
        batch.entries[0],
        SpriteBatchEntry::Line { start: Point::new(0, 0), end: Point::new(5, 7), color: red(), width: 3 }
    );
}

#[test]
fn fan_has_one_triangle_per_step() {
    for radius in [1, 5, 40, 300] {
        let mut batch = SpriteBatch::new();
        let rim: Vec<Point<i32>> = (0..=CIRCLE_STEPS as i32)
            .map(|i| Point::new(radius * (i % 3), radius * (i % 5)))
            .collect();
        batch.fill_fan(Point::new(100, 100), &rim, red());
        assert_eq!(batch.entries.len(), CIRCLE_STEPS as usize);
    }
}

#[test]
fn fan_triangles_join_centre_and_rim() {
    let mut batch = SpriteBatch::new();
    let rim = vec![Point::new(5, 0), Point::new(0, 5), Point::new(-5, 0)];
    batch.fill_fan(Point::new(10, 10), &rim, red());
    assert_eq!(batch.entries.len(), 2);
    assert_eq!(
        batch.entries[0],
        SpriteBatchEntry::FillTriangle { p1: Point::new(10, 10), p2: Point::new(10, 15), p3: Point::new(15, 10), color: red() }
    );
    assert_eq!(
        batch.entries[1],
        SpriteBatchEntry::FillTriangle { p1: Point::new(10, 10), p2: Point::new(5, 10), p3: Point::new(10, 15), color: red() }
    );
    let mut empty = SpriteBatch::new();
    empty.fill_fan(Point::new(0, 0), &Vec::new(), red());
    assert!(empty.entries.is_empty());
}

#[test]
fn polyline_joins_consecutive_points() {
    let mut batch = SpriteBatch::new();
    let rim = vec![Point::new(0, 0), Point::new(4, 0), Point::new(7, 3)];
    batch.draw_polyline(Point::new(1, 1), &rim, red(), 1);
    assert_eq!(batch.entries.len(), 2);
    assert_eq!(
        batch.entries[0],
        SpriteBatchEntry::FillRect { destination: Rect { x: 1, y: 1, w: 4, h: 1 }, color: red() }
    );
    assert_eq!(
        batch.entries[1],
        SpriteBatchEntry::Line { start: Point::new(5, 1), end: Point::new(8, 4), color: red(), width: 1 }
    );
}

#[test]
fn context_routes_to_layers() {
    let mut context = RenderContext::new(320, 200, 7);
    let sprite = Sprite { id: 1, area: Rect { x: 0, y: 0, w: 16, h: 16 } };
    let dst = Rect { x: 1, y: 2, w: 3, h: 4 };
    let src = Rect { x: 5, y: 6, w: 7, h: 8 };
    context.draw(sprite, RenderLayer::Player, dst, src);
    context.draw_reversed(sprite, RenderLayer::Hud, dst, src);
    context.fill_rect(dst, RenderLayer::Hud, red());
    assert_eq!(context.player_batch.entries.len(), 1);
    assert_eq!(context.hud_batch.entries.len(), 2);
    assert_eq!(
        context.hud_batch.entries[0],
        SpriteBatchEntry::Sprite { sprite, source: src, destination: dst, reversed: true }
    );
    assert_eq!(context.logical_area(), Rect { x: 0, y: 0, w: 320, h: 200 });
    context.clear();
    assert!(context.player_batch.entries.is_empty());
    assert!(context.hud_batch.entries.is_empty());
    assert_eq!(context.player_batch.clear_color, Color { r: 0, g: 0, b: 0, a: 255 });
    assert_eq!(context.hud_batch.clear_color, Color { r: 0, g: 0, b: 0, a: 0 });
    assert_eq!(context.frame, 7);
}

#[test]
fn lights_are_capped() {
    let mut context = RenderContext::new(320, 200, 0);
    for i in 0..(MAX_LIGHTS + 5) {
        context.add_light(Point::new(i as i32, 0), 3);
    }
    assert_eq!(context.lights.len(), MAX_LIGHTS);
    assert_eq!(context.lights[MAX_LIGHTS - 1].position, Point::new(MAX_LIGHTS as i32 - 1, 0));
}

#[test]
fn lines_at_the_edges_of_the_coordinate_range() {
    let mut batch = SpriteBatch::new();
    batch.draw_line(Point::new(i32::MIN, 0), Point::new(i32::MIN + 1, 0), red(), 4);
    assert_eq!(
        batch.entries[0],
        SpriteBatchEntry::FillRect { destination: Rect { x: i32::MIN, y: -2, w: 1, h: 4 }, color: red() }
    );
    batch.draw_line(Point::new(0, i32::MIN + 3), Point::new(0, i32::MIN), red(), 4);
    assert_eq!(
        batch.entries[1],
        SpriteBatchEntry::FillRect { destination: Rect { x: -2, y: i32::MIN, w: 4, h: 3 }, color: red() }
    );
    batch.draw_line(Point::new(i32::MIN, 0), Point::new(i32::MAX, 1), red(), 4);
    assert_eq!(
        batch.entries[2],
        SpriteBatchEntry::Line { start: Point::new(i32::MIN, 0), end: Point::new(i32::MAX, 1), color: red(), width: 4 }
    );
}
