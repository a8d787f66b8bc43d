use vstd::prelude::*;

use crate::color::Color;
use crate::constants::MAX_LIGHTS;
use crate::geometry::{point_sum_fits, Point, Rect};
use crate::sprite::Sprite;

verus! {

/// One drawing command.
#[derive(Debug, Clone, Copy, PartialEq, Eq, Structural)]
pub enum SpriteBatchEntry {
    Sprite { sprite: Sprite, source: Rect<i32>, destination: Rect<i32>, reversed: bool },
    FillRect { destination: Rect<i32>, color: Color },
    FillTriangle { p1: Point<i32>, p2: Point<i32>, p3: Point<i32>, color: Color },
    Line { start: Point<i32>, end: Point<i32>, color: Color, width: i32 },
}

/// Half of `w`, rounded toward zero.
pub open spec fn half_width(w: int) -> int {
    if w >= 0 {
        w / 2
    } else {
        -((-w) / 2)
    }
}

/// Whether the coordinates that `draw_line` computes for this segment fit in
/// `i32`: for a horizontal segment its length and its top edge, for a vertical
/// one its height and its left edge. Other segments are stored as they are.
pub open spec fn line_fits(p1: Point<i32>, p2: Point<i32>, width: i32) -> bool {
    let hw = half_width(width as int);
    &&& p1.y == p2.y ==> {
        &&& (if p1.x > p2.x { p1.x - p2.x } else { p2.x - p1.x }) <= i32::MAX
        &&& i32::MIN <= p1.y - hw <= i32::MAX
    }
    &&& (p1.y != p2.y && p1.x == p2.x) ==> {
        &&& (if p1.y > p2.y { p1.y - p2.y } else { p2.y - p1.y }) <= i32::MAX
        &&& i32::MIN <= p1.x - hw <= i32::MAX
    }
}

/// The command that a segment becomes: a rectangle `width` thick, centred on the
/// segment, where it is horizontal or vertical; a thick line otherwise.
pub open spec fn line_entry(p1: Point<i32>, p2: Point<i32>, color: Color, width: i32) -> SpriteBatchEntry {
    let hw = half_width(width as int);
    if p1.y == p2.y {
        let (left, right) = if p1.x > p2.x { (p2, p1) } else { (p1, p2) };
        SpriteBatchEntry::FillRect {
            destination: Rect {
                x: left.x,
                y: (left.y - hw) as i32,
                w: (right.x - left.x) as i32,
                h: width,
            },
            color,
        }
    } else if p1.x == p2.x {
        let (top, bottom) = if p1.y > p2.y { (p2, p1) } else { (p1, p2) };
        SpriteBatchEntry::FillRect {
            destination: Rect {
                x: (top.x - hw) as i32,
                y: top.y,
                w: width,
                h: (bottom.y - top.y) as i32,
            },
            color,
        }
    } else {
        SpriteBatchEntry::Line { start: p1, end: p2, color, width }
    }
}

/// A horizontal or vertical segment always becomes a filled rectangle, never a line.
pub proof fn lemma_axis_aligned_line_is_rect(p1: Point<i32>, p2: Point<i32>, color: Color, width: i32)
    requires
        p1.y == p2.y || p1.x == p2.x,
    ensures
        line_entry(p1, p2, color, width) is FillRect,
{
}

/// An ordered list of drawing commands for one layer, painted in list order.
pub struct SpriteBatch {
    pub clear_color: Color,
    pub entries: Vec<SpriteBatchEntry>,
}

impl SpriteBatch {
    pub fn new() -> (r: SpriteBatch)
        ensures
            r.clear_color == (Color { r: 0, g: 0, b: 0, a: 0 }),
            r.entries@.len() == 0,
    {
        SpriteBatch { clear_color: Color { r: 0, g: 0, b: 0, a: 0 }, entries: Vec::new() }
    }

    /// Appends a textured quad: `src` of `sprite` drawn onto `dst`, mirrored when
    /// `reversed`.
    pub fn draw(&mut self, sprite: Sprite, dst: Rect<i32>, src: Rect<i32>, reversed: bool)
        ensures
            final(self).clear_color == old(self).clear_color,
            final(self).entries@ == old(self).entries@.push(
                SpriteBatchEntry::Sprite { sprite, source: src, destination: dst, reversed },
            ),
    {
        self.entries.push(SpriteBatchEntry::Sprite { sprite, source: src, destination: dst, reversed });
    }

    /// Appends a filled rectangle.
    pub fn fill_rect(&mut self, rect: Rect<i32>, color: Color)
        ensures
            final(self).clear_color == old(self).clear_color,
            final(self).entries@ == old(self).entries@.push(
                SpriteBatchEntry::FillRect { destination: rect, color },
            ),
    {
        self.entries.push(SpriteBatchEntry::FillRect { destination: rect, color });
    }

    /// Appends a filled triangle.
    pub fn fill_triangle(&mut self, p1: Point<i32>, p2: Point<i32>, p3: Point<i32>, color: Color)
        ensures
            final(self).clear_color == old(self).clear_color,
            final(self).entries@ == old(self).entries@.push(
                SpriteBatchEntry::FillTriangle { p1, p2, p3, color },
            ),
    {
        self.entries.push(SpriteBatchEntry::FillTriangle { p1, p2, p3, color });
    }

    /// Appends a segment `width` thick. Horizontal and vertical segments become a
    /// filled rectangle centred on the segment; others a thick line.
    pub fn draw_line(&mut self, point1: Point<i32>, point2: Point<i32>, color: Color, width: i32)
        requires
            line_fits(point1, point2, width),
        ensures
            final(self).clear_color == old(self).clear_color,
            final(self).entries@ == old(self).entries@.push(line_entry(point1, point2, color, width)),
    {
        let half = width / 2;
        assert(half == half_width(width as int));
        if point1.y == point2.y {
            // horizontal
            let rect = if point1.x > point2.x {
                Rect { x: point2.x, y: point2.y - half, w: point1.x - point2.x, h: width }
            } else {
                Rect { x: point1.x, y: point1.y - half, w: point2.x - point1.x, h: width }
            };
            self.fill_rect(rect, color);
        } else if point1.x == point2.x {
            // vertical
            let rect = if point1.y > point2.y {
                Rect { x: point2.x - half, y: point2.y, w: width, h: point1.y - point2.y }
            } else {
                Rect { x: point1.x - half, y: point1.y, w: width, h: point2.y - point1.y }
            };
            self.fill_rect(rect, color);
        } else {
            self.entries.push(SpriteBatchEntry::Line { start: point1, end: point2, color, width })
        }
    }

    /// Appends a fan of triangles around `center`, one for each pair of
    /// consecutive rim points `center + rim[i]`, `center + rim[i + 1]`. This is how
    /// filled circles and arcs are built.
    pub fn fill_fan(&mut self, center: Point<i32>, rim: &Vec<Point<i32>>, color: Color)
        requires
            rim_fits(center, rim@),
        ensures
            final(self).clear_color == old(self).clear_color,
            final(self).entries@ == old(self).entries@ + fan_entries(center, rim@, color),
    {
        if rim.len() == 0 {
            assert(old(self).entries@ + fan_entries(center, rim@, color) =~= old(self).entries@);
            return;
        }
        let n = rim.len() - 1;
        let mut i: usize = 0;
        let mut current = center + rim[0];
        while i < n
            invariant
                n == rim@.len() - 1,
                i <= n,
                rim_fits(center, rim@),
                current == shifted(center, rim@[i as int]),
                self.clear_color == old(self).clear_color,
                self.entries@ == old(self).entries@ + fan_entries(center, rim@, color).take(i as int),
            decreases n - i,
        {
            assert(point_sum_fits(center, rim@[i + 1]));
            let next = center + rim[i + 1];
            self.fill_triangle(center, next, current, color);
            assert(fan_entries(center, rim@, color).take(i + 1) =~= fan_entries(center, rim@, color).take(
                i as int,
            ).push(fan_entries(center, rim@, color)[i as int]));
            current = next;
            i = i + 1;
        }
        assert(fan_entries(center, rim@, color).take(n as int) =~= fan_entries(center, rim@, color));
    }

    /// Appends the segments joining consecutive rim points `center + rim[i]`, each
    /// `width` thick. This is how circle outlines are built.
    pub fn draw_polyline(&mut self, center: Point<i32>, rim: &Vec<Point<i32>>, color: Color, width: i32)
        requires
            rim_fits(center, rim@),
            forall|i: int|
                0 <= i < rim@.len() - 1 ==> line_fits(
                    #[trigger] shifted(center, rim@[i]),
                    shifted(center, rim@[i + 1]),
                    width,
                ),
        ensures
            final(self).clear_color == old(self).clear_color,
            final(self).entries@ == old(self).entries@ + polyline_entries(center, rim@, color, width),
    {
        if rim.len() == 0 {
            assert(old(self).entries@ + polyline_entries(center, rim@, color, width) =~= old(self).entries@);
            return;
        }
        let n = rim.len() - 1;
        let mut i: usize = 0;
        let mut current = center + rim[0];
        while i < n
            invariant
                n == rim@.len() - 1,
                i <= n,
                rim_fits(center, rim@),
                forall|k: int|
                    0 <= k < rim@.len() - 1 ==> line_fits(
                        #[trigger] shifted(center, rim@[k]),
                        shifted(center, rim@[k + 1]),
                        width,
                    ),
                current == shifted(center, rim@[i as int]),
                self.clear_color == old(self).clear_color,
                self.entries@ == old(self).entries@ + polyline_entries(center, rim@, color, width).take(i as int),
            decreases n - i,
        {
            assert(point_sum_fits(center, rim@[i + 1]));
            let next = center + rim[i + 1];
            assert(line_fits(shifted(center, rim@[i as int]), shifted(center, rim@[i + 1]), width));
            self.draw_line(current, next, color, width);
            assert(polyline_entries(center, rim@, color, width).take(i + 1) =~= polyline_entries(center, rim@, color, width).take(
                i as int,
            ).push(polyline_entries(center, rim@, color, width)[i as int]));
            current = next;
            i = i + 1;
        }
        assert(polyline_entries(center, rim@, color, width).take(n as int) =~= polyline_entries(center, rim@, color, width));
    }
}

/// `center + offset`, for offsets known to fit.
pub open spec fn shifted(center: Point<i32>, offset: Point<i32>) -> Point<i32> {
    Point { x: (center.x + offset.x) as i32, y: (center.y + offset.y) as i32 }
}

/// The triangles of a fan around `center` through the rim points `center + rim[i]`:
/// triangle `i` joins the centre, rim point `i + 1` and rim point `i`.
pub open spec fn fan_entries(center: Point<i32>, rim: Seq<Point<i32>>, color: Color) -> Seq<SpriteBatchEntry> {
    Seq::new(
        if rim.len() == 0 { 0 } else { (rim.len() - 1) as nat },
        |i: int| SpriteBatchEntry::FillTriangle {
            p1: center,
            p2: shifted(center, rim[i + 1]),
            p3: shifted(center, rim[i]),
            color,
        },
    )
}

/// The segments joining consecutive rim points `center + rim[i]`.
pub open spec fn polyline_entries(center: Point<i32>, rim: Seq<Point<i32>>, color: Color, width: i32) -> Seq<SpriteBatchEntry> {
    Seq::new(
        if rim.len() == 0 { 0 } else { (rim.len() - 1) as nat },
        |i: int| line_entry(shifted(center, rim[i]), shifted(center, rim[i + 1]), color, width),
    )
}

/// A fan over `k + 1` rim points is made of exactly `k` triangles, whatever the
/// points are, and so whatever the radius they were taken at.
pub proof fn lemma_fan_triangle_count(center: Point<i32>, rim: Seq<Point<i32>>, color: Color)
    requires
        rim.len() > 0,
    ensures
        fan_entries(center, rim, color).len() == rim.len() - 1,
        forall|i: int| 0 <= i < rim.len() - 1 ==> #[trigger] fan_entries(center, rim, color)[i] is FillTriangle,
{
}

/// Whether every rim point, moved to `center`, is representable.
pub open spec fn rim_fits(center: Point<i32>, rim: Seq<Point<i32>>) -> bool {
    forall|i: int| 0 <= i < rim.len() ==> #[trigger] point_sum_fits(center, rim[i])
}

/// A light source on a dark level.
pub struct Light {
    pub position: Point<i32>,
    pub radius: i32,
}

/// The two layers of a frame.
#[derive(Debug, Clone, Copy, PartialEq, Eq, Structural)]
pub enum RenderLayer {
    Player,
    Hud,
}

/// Everything drawn in one frame: the world layer, the HUD layer and the lights.
pub struct RenderContext {
    pub player_batch: SpriteBatch,
    pub hud_batch: SpriteBatch,
    pub width: u32,
    pub height: u32,
    pub frame: u64,
    pub lights: Vec<Light>,
    pub is_dark: bool,
}

impl RenderContext {
    /// The entries of the batch for `layer`.
    pub open spec fn layer_entries(&self, layer: RenderLayer) -> Seq<SpriteBatchEntry> {
        match layer {
            RenderLayer::Player => self.player_batch.entries@,
            RenderLayer::Hud => self.hud_batch.entries@,
        }
    }

    /// `new` is `old` with `entry` appended to the batch for `layer` and nothing else
    /// changed.
    pub open spec fn appended(old: &RenderContext, new: &RenderContext, layer: RenderLayer, entry: SpriteBatchEntry) -> bool {
        &&& new.layer_entries(layer) == old.layer_entries(layer).push(entry)
        &&& new.player_batch.clear_color == old.player_batch.clear_color
        &&& new.hud_batch.clear_color == old.hud_batch.clear_color
        &&& (layer == RenderLayer::Player ==> new.hud_batch.entries@ == old.hud_batch.entries@)
        &&& (layer == RenderLayer::Hud ==> new.player_batch.entries@ == old.player_batch.entries@)
        &&& new.width == old.width
        &&& new.height == old.height
        &&& new.frame == old.frame
        &&& new.lights@ == old.lights@
        &&& new.is_dark == old.is_dark
    }

    /// `new` is `old` with `entries` appended to the batch for `layer` and nothing
    /// else changed.
    pub open spec fn layer_grown(old: &RenderContext, new: &RenderContext, layer: RenderLayer, entries: Seq<SpriteBatchEntry>) -> bool {
        &&& new.layer_entries(layer) == old.layer_entries(layer) + entries
        &&& new.player_batch.clear_color == old.player_batch.clear_color
        &&& new.hud_batch.clear_color == old.hud_batch.clear_color
        &&& (layer == RenderLayer::Player ==> new.hud_batch.entries@ == old.hud_batch.entries@)
        &&& (layer == RenderLayer::Hud ==> new.player_batch.entries@ == old.player_batch.entries@)
        &&& new.width == old.width
        &&& new.height == old.height
        &&& new.frame == old.frame
        &&& new.lights@ == old.lights@
        &&& new.is_dark == old.is_dark
    }

    /// Appending in two runs appends their concatenation.
    pub proof fn lemma_layer_grown_concat(
        first: &RenderContext,
        mid: &RenderContext,
        last: &RenderContext,
        layer: RenderLayer,
        a: Seq<SpriteBatchEntry>,
        b: Seq<SpriteBatchEntry>,
    )
        requires
            RenderContext::layer_grown(first, mid, layer, a),
            RenderContext::layer_grown(mid, last, layer, b),
        ensures
            RenderContext::layer_grown(first, last, layer, a + b),
    {
        assert(first.layer_entries(layer) + (a + b) =~= (first.layer_entries(layer) + a) + b);
    }

    /// Appending one more entry extends what was appended so far.
    pub proof fn lemma_layer_grown_push(
        first: &RenderContext,
        mid: &RenderContext,
        last: &RenderContext,
        layer: RenderLayer,
        entries: Seq<SpriteBatchEntry>,
        entry: SpriteBatchEntry,
    )
        requires
            RenderContext::layer_grown(first, mid, layer, entries),
            RenderContext::appended(mid, last, layer, entry),
        ensures
            RenderContext::layer_grown(first, last, layer, entries.push(entry)),
    {
        assert(first.layer_entries(layer) + entries.push(entry) =~= (first.layer_entries(layer) + entries).push(entry));
    }

    pub fn new(width: u32, height: u32, frame: u64) -> (r: RenderContext)
        ensures
            r.player_batch.entries@.len() == 0,
            r.hud_batch.entries@.len() == 0,
            r.player_batch.clear_color == (Color { r: 0, g: 0, b: 0, a: 0 }),
            r.hud_batch.clear_color == (Color { r: 0, g: 0, b: 0, a: 0 }),
            r.width == width,
            r.height == height,
            r.frame == frame,
            r.lights@.len() == 0,
            !r.is_dark,
    {
        let player_batch = SpriteBatch::new();
        let hud_batch = SpriteBatch::new();
        let lights = Vec::new();
        let is_dark = false;
        RenderContext { player_batch, hud_batch, width, height, frame, lights, is_dark }
    }

    /// The whole logical screen, from the origin.
    pub fn logical_area(&self) -> (r: Rect<i32>)
        ensures
            r == (Rect { x: 0, y: 0, w: self.width as i32, h: self.height as i32 }),
    {
        Rect { x: 0, y: 0, w: self.width as i32, h: self.height as i32 }
    }

    /// Appends a textured quad to the batch for `layer`.
    pub fn draw(&mut self, sprite: Sprite, layer: RenderLayer, dst: Rect<i32>, src: Rect<i32>)
        ensures
            RenderContext::appended(
                old(self),
                final(self),
                layer,
                SpriteBatchEntry::Sprite { sprite, source: src, destination: dst, reversed: false },
            ),
    {
        match layer {
            RenderLayer::Player => self.player_batch.draw(sprite, dst, src, false),
            RenderLayer::Hud => self.hud_batch.draw(sprite, dst, src, false),
        }
    }

    /// Appends a mirrored textured quad to the batch for `layer`.
    pub fn draw_reversed(&mut self, sprite: Sprite, layer: RenderLayer, dst: Rect<i32>, src: Rect<i32>)
        ensures
            RenderContext::appended(
                old(self),
                final(self),
                layer,
                SpriteBatchEntry::Sprite { sprite, source: src, destination: dst, reversed: true },
            ),
    {
        match layer {
            RenderLayer::Player => self.player_batch.draw(sprite, dst, src, true),
            RenderLayer::Hud => self.hud_batch.draw(sprite, dst, src, true),
        }
    }

    /// Appends a filled rectangle to the batch for `layer`.
    pub fn fill_rect(&mut self, rect: Rect<i32>, layer: RenderLayer, color: Color)
        ensures
            RenderContext::appended(
                old(self),
                final(self),
                layer,
                SpriteBatchEntry::FillRect { destination: rect, color },
            ),
    {
        match layer {
            RenderLayer::Player => self.player_batch.fill_rect(rect, color),
            RenderLayer::Hud => self.hud_batch.fill_rect(rect, color),
        }
    }

    /// Empties both batches for the next frame: the world layer clears to opaque
    /// black, the HUD layer to transparent.
    pub fn clear(&mut self)
        ensures
            final(self).player_batch.entries@.len() == 0,
            final(self).hud_batch.entries@.len() == 0,
            final(self).player_batch.clear_color == (Color { r: 0, g: 0, b: 0, a: 255 }),
            final(self).hud_batch.clear_color == (Color { r: 0, g: 0, b: 0, a: 0 }),
            final(self).width == old(self).width,
            final(self).height == old(self).height,
            final(self).frame == old(self).frame,
            final(self).lights@ == old(self).lights@,
            final(self).is_dark == old(self).is_dark,
    {
        self.player_batch.entries.clear();
        self.hud_batch.entries.clear();
        self.player_batch.clear_color = Color { r: 0, g: 0, b: 0, a: 255 };
        self.hud_batch.clear_color = Color { r: 0, g: 0, b: 0, a: 0 }
    }

    /// Adds a light, unless the frame already holds as many as it can; then the
    /// light is dropped.
    pub fn add_light(&mut self, position: Point<i32>, radius: i32)
        ensures
            old(self).lights@.len() >= MAX_LIGHTS ==> final(self).lights@ == old(self).lights@,
            old(self).lights@.len() < MAX_LIGHTS ==> final(self).lights@ == old(self).lights@.push(
                Light { position, radius },
            ),
            final(self).player_batch == old(self).player_batch,
            final(self).hud_batch == old(self).hud_batch,
            final(self).width == old(self).width,
            final(self).height == old(self).height,
            final(self).frame == old(self).frame,
            final(self).is_dark == old(self).is_dark,
    {
        if self.lights.len() >= MAX_LIGHTS {
            return;
        }
        self.lights.push(Light { position, radius });
    }
}

} // verus!
