use vstd::prelude::*;

use crate::geometry::Rect;
use crate::rendercontext::{RenderContext, RenderLayer, SpriteBatchEntry};

verus! {

/// An image, or a part of one, in the texture atlas.
#[derive(Debug, Clone, Copy, PartialEq, Eq, Structural)]
pub struct Sprite {
    pub id: usize,
    pub area: Rect<i32>,
}

impl Sprite {
    /// The same image with `rect` as its area.
    pub fn subview(&self, rect: Rect<i32>) -> (r: Sprite)
        ensures
            r.id == self.id,
            r.area == rect,
    {
        Sprite { id: self.id, area: rect }
    }
}

/// Why an animation could not be made from a sprite.
#[derive(Debug, Clone, Copy, PartialEq, Eq, Structural)]
pub enum SpriteError {
    /// Animations have one row of frames: the sprite's height must be the frame
    /// height.
    HeightMismatch { specified: i32, actual: i32 },
}

/// A sprite cut into a grid of equally sized frames, read row by row.
pub struct SpriteSheet {
    sprite: Sprite,
    sprite_width: i32,
    sprite_height: i32,
    columns: u32,
}

impl SpriteSheet {
    pub closed spec fn spec_sprite(&self) -> Sprite {
        self.sprite
    }

    pub closed spec fn spec_sprite_width(&self) -> i32 {
        self.sprite_width
    }

    pub closed spec fn spec_sprite_height(&self) -> i32 {
        self.sprite_height
    }

    /// Frames per row.
    pub closed spec fn spec_columns(&self) -> u32 {
        self.columns
    }

    /// The row of frame `index` of layer `layer`: layers stack rows below one another.
    pub open spec fn frame_row(&self, index: u32, layer: u32) -> int {
        (index / self.spec_columns()) as int + layer as int
    }

    pub open spec fn frame_column(&self, index: u32) -> int {
        (index % self.spec_columns()) as int
    }

    /// Whether frame `index` of layer `layer` has a representable area.
    pub open spec fn frame_fits(&self, index: u32, layer: u32) -> bool {
        &&& self.spec_columns() > 0
        &&& self.frame_row(index, layer) <= i32::MAX
        &&& self.frame_column(index) <= i32::MAX
        &&& i32::MIN <= self.spec_sprite_width() * self.frame_column(index) <= i32::MAX
        &&& i32::MIN <= self.spec_sprite_height() * self.frame_row(index, layer) <= i32::MAX
    }

    /// The area within the sprite of frame `index` of layer `layer`.
    pub open spec fn frame_area(&self, index: u32, layer: u32) -> Rect<i32> {
        Rect {
            x: (self.spec_sprite_width() * self.frame_column(index)) as i32,
            y: (self.spec_sprite_height() * self.frame_row(index, layer)) as i32,
            w: self.spec_sprite_width(),
            h: self.spec_sprite_height(),
        }
    }

    /// A sheet of frames `sprite_width` by `sprite_height`; a row holds as many
    /// whole frames as fit across the sprite.
    pub fn new(sprite: Sprite, sprite_width: i32, sprite_height: i32) -> (r: SpriteSheet)
        requires
            sprite_width > 0,
            sprite.area.w >= 0,
        ensures
            r.spec_sprite() == sprite,
            r.spec_sprite_width() == sprite_width,
            r.spec_sprite_height() == sprite_height,
            r.spec_columns() == sprite.area.w / sprite_width,
    {
        let w = sprite.area.w;
        let columns = (w / sprite_width) as u32;
        SpriteSheet { sprite, sprite_width, sprite_height, columns }
    }

    fn source_area(&self, index: u32, layer: u32) -> (r: Rect<i32>)
        requires
            self.frame_fits(index, layer),
        ensures
            r == self.frame_area(index, layer),
    {
        let row = (index / self.columns) + layer;
        let column = index % self.columns;
        let w = self.sprite_width;
        let h = self.sprite_height;
        let x = w * column as i32;
        let y = h * row as i32;
        Rect { x, y, w, h }
    }

    /// Draws frame `index` of layer `sprite_layer` onto `dest`, mirrored when
    /// `reverse`.
    pub fn blit(
        &self,
        context: &mut RenderContext,
        layer: RenderLayer,
        dest: Rect<i32>,
        index: u32,
        sprite_layer: u32,
        reverse: bool,
    )
        requires
            self.frame_fits(index, sprite_layer),
        ensures
            RenderContext::appended(
                old(context),
                final(context),
                layer,
                SpriteBatchEntry::Sprite {
                    sprite: self.spec_sprite(),
                    source: self.frame_area(index, sprite_layer),
                    destination: dest,
                    reversed: reverse,
                },
            ),
    {
        let source_area = self.source_area(index, sprite_layer);
        if reverse {
            context.draw_reversed(self.sprite, layer, dest, source_area);
        } else {
            context.draw(self.sprite, layer, dest, source_area);
        }
    }
}

/// A looping animation: one row of frames, each shown for `frames_per_frame`
/// rendered frames.
pub struct Animation {
    spritesheet: SpriteSheet,
    frames: u32,
    frames_per_frame: u32,
}

impl Animation {
    pub closed spec fn spec_sheet(&self) -> &SpriteSheet {
        &self.spritesheet
    }

    pub closed spec fn spec_frames(&self) -> u32 {
        self.frames
    }

    pub closed spec fn spec_frames_per_frame(&self) -> u32 {
        self.frames_per_frame
    }

    /// Every frame of the animation has a representable area in its sheet.
    pub closed spec fn wf(&self) -> bool {
        &&& self.frames_per_frame == 2
        &&& self.spritesheet.sprite_width > 0
        &&& self.spritesheet.sprite.area.w >= 0
        &&& self.frames == self.spritesheet.columns
        &&& self.spritesheet.columns == self.spritesheet.sprite.area.w / self.spritesheet.sprite_width
    }

    /// How many frames the animation has.
    pub fn frame_count(&self) -> (r: u32)
        ensures
            r == self.spec_frames(),
    {
        self.frames
    }

    /// Whether the animation can be drawn: it is well formed and has frames.
    pub fn is_drawable(&self) -> (r: bool)
        ensures
            r == (self.wf() && self.spec_frames() > 0),
    {
        self.frames_per_frame == 2 && self.spritesheet.sprite_width > 0 && self.spritesheet.sprite.area.w >= 0
            && self.frames == self.spritesheet.columns && self.spritesheet.columns as i64
            == (self.spritesheet.sprite.area.w / self.spritesheet.sprite_width) as i64 && self.frames > 0
    }

    /// The frame shown on rendered frame `frame`.
    pub open spec fn frame_index(&self, frame: u64) -> u32 {
        ((frame / self.spec_frames_per_frame() as u64) % self.spec_frames() as u64) as u32
    }

    /// An animation whose frames are `sprite_width` wide and fill the sprite's one
    /// row; refused unless the sprite is exactly `sprite_height` tall.
    pub fn new(sprite: Sprite, sprite_width: i32, sprite_height: i32) -> (r: Result<Animation, SpriteError>)
        requires
            sprite_width > 0,
            sprite.area.w >= 0,
        ensures
            sprite.area.h != sprite_height ==> r == Err::<Animation, SpriteError>(
                SpriteError::HeightMismatch { specified: sprite_height, actual: sprite.area.h },
            ),
            sprite.area.h == sprite_height ==> (r matches Ok(a) && {
                &&& a.wf()
                &&& a.spec_sheet().spec_sprite() == sprite
                &&& a.spec_sheet().spec_sprite_width() == sprite_width
                &&& a.spec_sheet().spec_sprite_height() == sprite_height
                &&& a.spec_frames() == sprite.area.w / sprite_width
                &&& a.spec_frames_per_frame() == 2
            }),
    {
        if sprite.area.h != sprite_height {
            return Err(SpriteError::HeightMismatch { specified: sprite_height, actual: sprite.area.h });
        }
        let w = sprite.area.w;
        let spritesheet = SpriteSheet::new(sprite, sprite_width, sprite_height);
        let frames = (w / sprite_width) as u32;
        let frames_per_frame: u32 = 2;
        Ok(Animation { spritesheet, frames, frames_per_frame })
    }

    /// Draws the frame due on the context's current frame onto `dest`, mirrored
    /// when `reverse`.
    pub fn blit(&self, context: &mut RenderContext, layer: RenderLayer, dest: Rect<i32>, reverse: bool)
        requires
            self.wf(),
            self.spec_frames() > 0,
        ensures
            RenderContext::appended(
                old(context),
                final(context),
                layer,
                SpriteBatchEntry::Sprite {
                    sprite: self.spec_sheet().spec_sprite(),
                    source: self.spec_sheet().frame_area(self.frame_index(old(context).frame), 0),
                    destination: dest,
                    reversed: reverse,
                },
            ),
    {
        let index = ((context.frame / self.frames_per_frame as u64) % self.frames as u64) as u32;
        proof {
            let sheet = self.spritesheet;
            let sw = sheet.sprite_width as int;
            let cols = sheet.columns as int;
            let aw = sheet.sprite.area.w as int;
            assert(index < cols);
            assert(sw * index <= sw * cols) by (nonlinear_arith)
                requires
                    sw > 0,
                    0 <= index < cols,
            ;
            assert(sw * (aw / sw) <= aw) by (nonlinear_arith)
                requires
                    sw > 0,
                    aw >= 0,
            ;
            vstd::arithmetic::div_mod::lemma_basic_div_specific_divisor(cols);
            vstd::arithmetic::div_mod::lemma_small_mod(index as nat, cols as nat);
            assert(index / sheet.columns == 0);
            assert(index % sheet.columns == index);
            assert(sheet.frame_column(index) == index);
            assert(sheet.frame_row(index, 0) == 0);
            assert(sw * index <= aw);
            assert(sheet.spec_sprite_width() * sheet.frame_column(index) == sw * index);
            assert(sheet.spec_sprite_height() * sheet.frame_row(index, 0) == 0) by (nonlinear_arith)
                requires
                    sheet.frame_row(index, 0) == 0,
            ;
            assert(sheet.frame_fits(index, 0));
        }
        self.spritesheet.blit(context, layer, dest, index, 0, reverse)
    }
}

} // verus!
