use meez3d::geometry::Rect;
use meez3d::rendercontext::{RenderContext, RenderLayer, SpriteBatchEntry};
use meez3d::sprite::{Animation, Sprite, SpriteError, SpriteSheet};

fn sheet_sprite() -> Sprite {
    Sprite { id: 3, area: Rect { x: 0, y: 0, w: 64, h: 16 } }
}

#[test]
fn subview_keeps_id() {
    let s = sheet_sprite();
    let sub = s.subview(Rect { x: 8, y: 8, w: 4, h: 4 });
    assert_eq!(sub, Sprite { id: 3, area: Rect { x: 8, y: 8, w: 4, h: 4 } });
}

#[test]
fn sheet_blits_frame_by_index_and_layer() {
    let sheet = SpriteSheet::new(sheet_sprite(), 8, 8);
    let mut context = RenderContext::new(320, 200, 0);
    let dest = Rect { x: 1, y: 1, w: 8, h: 8 };
    sheet.blit(&mut context, RenderLayer::Player, dest, 10, 1, true);
    // Eight frames a row: frame 10 is row 1, column 2; layer 1 adds a row.
    assert_eq!(
        context.player_batch.entries[0],
        SpriteBatchEntry::Sprite {
            sprite: sheet_sprite(),
            source: Rect { x: 16, y: 16, w: 8, h: 8 },
            destination: dest,
            reversed: true
        }
    );
}

#[test]
fn animation_needs_one_row() {
    let result = Animation::new(sheet_sprite(), 8, 8);
    assert_eq!(result.err(), Some(SpriteError::HeightMismatch { specified: 8, actual: 16 }));
}

#[test]
fn animation_advances_every_two_frames() {
    let animation = Animation::new(sheet_sprite(), 16, 16).ok().unwrap();
    let dest = Rect { x: 0, y: 0, w: 16, h: 16 };
    // Four frames; rendered frame 13 shows frame (13 / 2) % 4 = 2.
    let mut context = RenderContext::new(320, 200, 13);
    animation.blit(&mut context, RenderLayer::Hud, dest, false);
    assert_eq!(
        context.hud_batch.entries[0],
        SpriteBatchEntry::Sprite {
            sprite: sheet_sprite(),
            source: Rect { x: 32, y: 0, w: 16, h: 16 },
            destination: dest,
            reversed: false
        }
    );
}
