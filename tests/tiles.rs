use meez3d::font::Font;
use meez3d::geometry::{Point, Rect};
use meez3d::rendercontext::{RenderContext, RenderLayer, SpriteBatchEntry};
use meez3d::sprite::Sprite;
use meez3d::tilemap::{ButtonType, ConveyorDirection, Overflow};
use meez3d::tileset::{LocalTileIndex, TileIndex, TileProperties, TileSet};

fn atlas() -> Sprite {
    Sprite { id: 0, area: Rect { x: 0, y: 0, w: 1024, h: 1024 } }
}

fn glyphs() -> TileSet {
    TileSet::new("font", TileIndex(0), 64, 64, 128, 16, atlas())
}

#[test]
fn names_parse() {
    assert_eq!(Overflow::parse("oscillate"), Ok(Overflow::Oscillate));
    assert_eq!(Overflow::parse("wrap"), Ok(Overflow::Wrap));
    assert_eq!(Overflow::parse("clamp"), Ok(Overflow::Clamp));
    assert_eq!(Overflow::parse("bounce").err().unwrap().text, "bounce");
    assert_eq!(ConveyorDirection::parse("W"), Ok(ConveyorDirection::Left));
    assert_eq!(ConveyorDirection::parse("E"), Ok(ConveyorDirection::Right));
    assert!(ConveyorDirection::parse("N").is_err());
    assert_eq!("toggle".parse::<ButtonType>(), Ok(ButtonType::Toggle));
    assert_eq!(ButtonType::parse("oneshot"), Ok(ButtonType::OneShot));
    assert_eq!(ButtonType::parse("momentary"), Ok(ButtonType::Momentary));
    assert_eq!(ButtonType::parse("smart"), Ok(ButtonType::Smart));
    assert!(ButtonType::parse("Smart").is_err());
}

#[test]
fn tile_indices() {
    let set = TileSet::new("tiles", TileIndex(33), 16, 16, 64, 8, atlas());
    assert_eq!(set.get_local_tile_index(TileIndex(40)), Some(LocalTileIndex(7)));
    assert_eq!(set.get_local_tile_index(TileIndex(32)), None);
    assert_eq!(set.get_global_tile_index(LocalTileIndex(7)), TileIndex(40));
    assert_eq!(set.gid_sort_key(), -33);
    assert_eq!(set.get_source_rect(LocalTileIndex(10)), Rect { x: 32, y: 16, w: 16, h: 16 });
    assert_eq!(usize::from(TileIndex::from(5)), 5);
    assert_eq!(usize::from(LocalTileIndex::from(6)), 6);
}

#[test]
fn tile_properties_are_kept_by_index() {
    let mut set = TileSet::new("tiles", TileIndex(1), 16, 16, 64, 8, atlas());
    assert!(set.get_tile_properties(LocalTileIndex(3)).is_none());
    set.set_tile_properties(LocalTileIndex(3), TileProperties { solid: false, animation: Some("a.png".to_string()) });
    let props = set.get_tile_properties(LocalTileIndex(3)).unwrap();
    assert!(!props.solid);
    assert_eq!(props.animation.as_deref(), Some("a.png"));
    assert!(set.get_tile_properties(LocalTileIndex(2)).is_none());
    assert!(set.tile_area_fits(64));
    assert!(!set.tile_area_fits(65));
}

#[test]
fn font_draws_glyph_per_char() {
    let font = Font::new(glyphs());
    assert!(font.has_all_glyphs());
    let mut context = RenderContext::new(320, 200, 0);
    font.draw_string(&mut context, RenderLayer::Hud, Point::new(10, 20), "AB");
    assert_eq!(context.hud_batch.entries.len(), 2);
    // 'A' is 65: row 4, column 1 of a sixteen-column sheet.
    assert_eq!(
        context.hud_batch.entries[0],
        SpriteBatchEntry::Sprite {
            sprite: atlas(),
            source: Rect { x: 64, y: 256, w: 64, h: 64 },
            destination: Rect { x: 10, y: 20, w: 64, h: 64 },
            reversed: false
        }
    );
    match context.hud_batch.entries[1] {
        SpriteBatchEntry::Sprite { destination, .. } => assert_eq!(destination.x, 74),
        _ => panic!("expected a sprite"),
    }
}

#[test]
fn font_skips_glyphs_off_screen() {
    let font = Font::new(glyphs());
    let mut context = RenderContext::new(320, 200, 0);
    font.draw_string(&mut context, RenderLayer::Player, Point::new(-64, 0), "xyz");
    assert!(context.player_batch.entries.is_empty());
    font.draw_string(&mut context, RenderLayer::Player, Point::new(0, 0), "é");
    match context.player_batch.entries[0] {
        SpriteBatchEntry::Sprite { source, .. } => assert_eq!(source, Rect { x: 15 * 64, y: 7 * 64, w: 64, h: 64 }),
        _ => panic!("expected a sprite"),
    }
}
