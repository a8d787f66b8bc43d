use vstd::prelude::*;

use crate::geometry::{Point, Rect};
use crate::input::InputSnapshot;
use crate::rendercontext::{RenderContext, RenderLayer, SpriteBatchEntry};
use crate::sprite::Sprite;

verus! {

/// The mouse pointer.
pub struct Cursor {
    position: Point<i32>,
    sprite: Sprite,
}

/// The part of the cursor's sprite that is drawn.
pub open spec fn cursor_source() -> Rect<i32> {
    Rect { x: 0, y: 0, w: 64, h: 64 }
}

impl Cursor {
    pub closed spec fn spec_position(&self) -> Point<i32> {
        self.position
    }

    pub closed spec fn spec_sprite(&self) -> Sprite {
        self.sprite
    }

    /// A cursor at the origin drawn with `sprite`.
    pub fn new(sprite: Sprite) -> (r: Cursor)
        ensures
            r.spec_position() == (Point { x: 0i32, y: 0i32 }),
            r.spec_sprite() == sprite,
    {
        let position = Point::zero();
        Cursor { position, sprite }
    }

    /// Draws the cursor's 64-pixel square with its top-left corner at the cursor's
    /// position.
    pub fn draw(&self, context: &mut RenderContext, layer: RenderLayer)
        ensures
            RenderContext::appended(
                old(context),
                final(context),
                layer,
                SpriteBatchEntry::Sprite {
                    sprite: self.spec_sprite(),
                    source: cursor_source(),
                    destination: Rect { x: self.spec_position().x, y: self.spec_position().y, w: 64, h: 64 },
                    reversed: false,
                },
            ),
    {
        let src = Rect { x: 0, y: 0, w: 64, h: 64 };
        let dest = src + self.position;
        context.draw(self.sprite, layer, dest, src);
    }

    /// Follows the mouse.
    pub fn update(&mut self, input: &InputSnapshot)
        ensures
            final(self).spec_position() == input.mouse_position,
            final(self).spec_sprite() == old(self).spec_sprite(),
    {
        self.position = input.mouse_position;
    }
}

} // verus!
