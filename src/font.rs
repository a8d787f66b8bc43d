use vstd::prelude::*;

use crate::geometry::{Point, Rect};
use crate::rendercontext::{RenderContext, RenderLayer, SpriteBatchEntry};
use crate::tileset::{LocalTileIndex, TileSet};

verus! {

/// The glyph that stands for `c`: its code point, with everything past ASCII
/// drawn as glyph 127.
pub open spec fn glyph_index(c: char) -> int {
    if (c as int) > 127 {
        127
    } else {
        c as int
    }
}

/// Laying out the first `n` characters of `s` from `pos`: the entries drawn and
/// the left edge of the next character. A character whose cell would end at or
/// above the top of the screen, or at or left of its left edge, is skipped
/// without moving on.
pub open spec fn layout(tileset: &TileSet, pos: Point<i32>, s: Seq<char>, n: int, cw: i32, ch: i32) -> (Seq<SpriteBatchEntry>, int)
    decreases n,
{
    if n <= 0 {
        (Seq::empty(), pos.x as int)
    } else {
        let (entries, x) = layout(tileset, pos, s, n - 1, cw, ch);
        if pos.y + ch <= 0 || x + cw <= 0 {
            (entries, x)
        } else {
            (
                entries.push(
                    SpriteBatchEntry::Sprite {
                        sprite: tileset.spec_sprite(),
                        source: tileset.source_rect(glyph_index(s[n - 1])),
                        destination: Rect { x: x as i32, y: pos.y, w: cw, h: ch },
                        reversed: false,
                    },
                ),
                x + cw,
            )
        }
    }
}

/// The length in bytes of the UTF-8 encoding of `s`.
pub open spec fn utf8_len(s: Seq<char>) -> int {
    vstd::utf8::encode_utf8(s).len() as int
}

/// Text drawn with a tileset of glyphs indexed by character code.
pub struct Font {
    tileset: TileSet,
    pub char_width: i32,
    pub char_height: i32,
}

impl Font {
    pub closed spec fn spec_tileset(&self) -> &TileSet {
        &self.tileset
    }

    pub closed spec fn spec_char_width(&self) -> i32 {
        self.char_width
    }

    pub closed spec fn spec_char_height(&self) -> i32 {
        self.char_height
    }

    /// Whether every glyph of the tileset has a representable area.
    pub open spec fn glyphs_fit(&self) -> bool {
        forall|i: int| 0 <= i <= 127 ==> #[trigger] self.spec_tileset().source_rect_fits(i)
    }

    /// Whether `s` can be laid out from `pos` with representable coordinates.
    pub open spec fn text_fits(&self, pos: Point<i32>, s: Seq<char>) -> bool {
        &&& self.spec_char_width() >= 0
        &&& i32::MIN <= pos.y + self.spec_char_height() <= i32::MAX
        &&& pos.x + s.len() * self.spec_char_width() <= i32::MAX
    }

    pub fn char_height(&self) -> (r: i32)
        ensures
            r == self.spec_char_height(),
    {
        self.char_height
    }

    pub fn char_width(&self) -> (r: i32)
        ensures
            r == self.spec_char_width(),
    {
        self.char_width
    }

    /// Whether every glyph has a representable area in the tileset.
    pub fn has_all_glyphs(&self) -> (r: bool)
        ensures
            r == self.glyphs_fit(),
    {
        let mut i: usize = 0;
        while i <= 127
            invariant
                i <= 128,
                forall|k: int| 0 <= k < i ==> #[trigger] self.spec_tileset().source_rect_fits(k),
            decreases 128 - i,
        {
            if !self.tileset.tile_area_fits(i) {
                assert(!self.spec_tileset().source_rect_fits(i as int));
                return false;
            }
            i = i + 1;
        }
        true
    }

    /// A font of 64-pixel square glyphs.
    pub fn new(tileset: TileSet) -> (r: Font)
        ensures
            r.spec_tileset() == tileset,
            r.spec_char_width() == 64,
            r.spec_char_height() == 64,
    {
        Font { tileset, char_width: 64, char_height: 64 }
    }

    /// Draws `s` left to right from `pos`, one glyph per character.
    pub fn draw_string(&self, context: &mut RenderContext, layer: RenderLayer, pos: Point<i32>, s: &str)
        requires
            self.glyphs_fit(),
            self.text_fits(pos, s@),
        ensures
            RenderContext::layer_grown(
                old(context),
                final(context),
                layer,
                layout(self.spec_tileset(), pos, s@, s@.len() as int, self.spec_char_width(), self.spec_char_height()).0,
            ),
    {
        let n = s.unicode_len();
        let ghost cw = self.char_width as int;
        let ghost ch = self.char_height;
        let mut pen = pos;
        let mut i: usize = 0;
        proof {
            assert(context.layer_entries(layer) + Seq::empty() =~= context.layer_entries(layer));
        }
        while i < n
            invariant
                n == s@.len(),
                i <= n,
                self.glyphs_fit(),
                self.text_fits(pos, s@),
                cw == self.char_width,
                ch == self.char_height,
                pen.y == pos.y,
                pen.x == layout(self.spec_tileset(), pos, s@, i as int, self.char_width, ch).1,
                pos.x <= pen.x <= pos.x + i * cw,
                RenderContext::layer_grown(
                    old(context),
                    context,
                    layer,
                    layout(self.spec_tileset(), pos, s@, i as int, self.char_width, ch).0,
                ),
            decreases n - i,
        {
            let c = s.get_char(i);
            let code = c as u32;
            let glyph: usize = if code > 127 {
                127
            } else {
                code as usize
            };
            assert(self.tileset.source_rect_fits(glyph as int));
            let area = self.tileset.get_source_rect(LocalTileIndex(glyph));
            proof {
                assert(i * cw <= (n - 1) * cw) by (nonlinear_arith)
                    requires
                        i < n,
                        cw >= 0,
                ;
                assert((i + 1) * cw == i * cw + cw) by (nonlinear_arith);
                assert(n * cw == (n - 1) * cw + cw) by (nonlinear_arith);
            }
            let dest = Rect { x: pen.x, y: pen.y, w: self.char_width, h: self.char_height };
            if dest.bottom() <= 0 || dest.right() <= 0 {
                i = i + 1;
                continue;
            }
            let ghost before = *context;
            let sprite = self.tileset.sprite();
            context.draw(sprite, layer, dest, area);
            proof {
                RenderContext::lemma_layer_grown_push(old(context), &before, context, layer,
                    layout(self.spec_tileset(), pos, s@, i as int, self.char_width, ch).0,
                    SpriteBatchEntry::Sprite { sprite, source: area, destination: dest, reversed: false });
            }
            pen = Point::new(pen.x + self.char_width, pen.y);
            i = i + 1;
        }
    }
}

} // verus!
