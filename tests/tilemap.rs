use meez3d::color::Color;
use meez3d::geometry::{Point, Rect};
use meez3d::rendercontext::{RenderContext, RenderLayer, SpriteBatchEntry};
use meez3d::sprite::{Animation, Sprite};
use meez3d::tilemap::{ImageLayer, Layer, LayerError, MapError, TileLayer, TileMap};
use meez3d::tileset::{LocalTileIndex, TileIndex, TileSet, TileSetList};

fn atlas(id: usize) -> Sprite {
    Sprite { id, area: Rect { x: 0, y: 0, w: 64, h: 64 } }
}

fn tilesets() -> TileSetList {
    let mut list = TileSetList::new();
    list.add(TileSet::new("a", TileIndex(1), 16, 16, 16, 4, atlas(1)));
    list.add(TileSet::new("b", TileIndex(17), 16, 16, 16, 4, atlas(2)));
    list
}

fn layer(data: &str, player: bool) -> Layer {
    Layer::Tile(TileLayer::from_data(1, "layer", 4, 3, data, player).unwrap())
}

const DATA: &str = "1,0,2,3\n0,17,0,0\n4,4,4,4\n";

fn sprite_entry(sprite: Sprite, source: Rect<i32>, destination: Rect<i32>) -> SpriteBatchEntry {
    SpriteBatchEntry::Sprite { sprite, source, destination, reversed: false }
}

#[test]
fn layer_data_parses_rows() {
    let layer = TileLayer::from_data(1, "l", 2, 2, "1,,2,\n\n  3,4  \n", false).unwrap();
    assert_eq!(layer.get(0, 1), Some(&TileIndex(2)));
    assert_eq!(layer.get(1, 0), Some(&TileIndex(3)));
    assert_eq!(layer.get(2, 0), None);
    assert_eq!(layer.get(0, 2), None);
}

#[test]
fn layer_data_errors() {
    assert_eq!(TileLayer::from_data(1, "l", 2, 2, "1,2\n3", false).err(), Some(LayerError::RowLength { len: 1, width: 2 }));
    assert_eq!(TileLayer::from_data(1, "l", 2, 1, "1,x", false).err(), Some(LayerError::InvalidTileIndex));
    assert_eq!(TileLayer::from_data(1, "l", 2, 1, "1, 2", false).err(), Some(LayerError::InvalidTileIndex));
    assert_eq!(TileLayer::from_data(1, "l", 2, 2, "1,2\n", false).err(), Some(LayerError::Height { rows: 1, height: 2 }));
}

#[test]
fn tilesets_are_looked_up_by_first_index() {
    let list = tilesets();
    let (set, id) = list.lookup(TileIndex(20));
    assert_eq!(set.sprite(), atlas(2));
    assert_eq!(id, LocalTileIndex(3));
    let (set, id) = list.lookup(TileIndex(16));
    assert_eq!(set.sprite(), atlas(1));
    assert_eq!(id, LocalTileIndex(15));
}

#[test]
fn map_needs_tileset_and_one_player_layer() {
    let black = Color { r: 0, g: 0, b: 0, a: 255 };
    let r = TileMap::new(4, 3, 16, 16, black, TileSetList::new(), Vec::new());
    assert_eq!(r.err(), Some(MapError::NoTileset));
    let layers = vec![layer(DATA, true), layer(DATA, true)];
    let r = TileMap::new(4, 3, 16, 16, black, tilesets(), layers);
    assert_eq!(r.err(), Some(MapError::TooManyPlayerLayers));
}

#[test]
fn tile_layer_is_clipped_to_destination() {
    let black = Color { r: 0, g: 0, b: 0, a: 255 };
    let map = TileMap::new(4, 3, 16, 16, black, tilesets(), Vec::new()).unwrap();
    let data = TileLayer::from_data(1, "l", 4, 3, DATA, false).unwrap();
    let mut context = RenderContext::new(320, 200, 0);
    let dest = Rect { x: 0, y: 0, w: 40, h: 40 };
    map.draw_tile_layer(&data, &mut context, RenderLayer::Player, dest, Point::new(0, 0));
    assert_eq!(
        context.player_batch.entries,
        vec![
            sprite_entry(atlas(1), Rect { x: 0, y: 0, w: 16, h: 16 }, Rect { x: 0, y: 0, w: 16, h: 16 }),
            sprite_entry(atlas(1), Rect { x: 16, y: 0, w: 8, h: 16 }, Rect { x: 32, y: 0, w: 8, h: 16 }),
            sprite_entry(atlas(2), Rect { x: 0, y: 0, w: 16, h: 16 }, Rect { x: 16, y: 16, w: 16, h: 16 }),
            sprite_entry(atlas(1), Rect { x: 48, y: 0, w: 16, h: 8 }, Rect { x: 0, y: 32, w: 16, h: 8 }),
            sprite_entry(atlas(1), Rect { x: 48, y: 0, w: 16, h: 8 }, Rect { x: 16, y: 32, w: 16, h: 8 }),
            sprite_entry(atlas(1), Rect { x: 48, y: 0, w: 8, h: 8 }, Rect { x: 32, y: 32, w: 8, h: 8 }),
        ]
    );

    let mut context = RenderContext::new(320, 200, 0);
    map.draw_tile_layer(&data, &mut context, RenderLayer::Hud, dest, Point::new(-20, -20));
    assert_eq!(
        context.hud_batch.entries[0],
        sprite_entry(atlas(2), Rect { x: 4, y: 4, w: 12, h: 12 }, Rect { x: 0, y: 0, w: 12, h: 12 })
    );
}

#[test]
fn animated_tiles_show_current_frame() {
    let black = Color { r: 0, g: 0, b: 0, a: 255 };
    let mut set = TileSet::new("a", TileIndex(1), 16, 16, 16, 4, atlas(1));
    let strip = Sprite { id: 7, area: Rect { x: 0, y: 0, w: 64, h: 16 } };
    set.set_animation(LocalTileIndex(3), Animation::new(strip, 16, 16).ok().unwrap());
    let mut list = TileSetList::new();
    list.add(set);
    let map = TileMap::new(4, 3, 16, 16, black, list, Vec::new()).unwrap();
    assert!(map.get_animation(TileIndex(4)).is_some());
    assert!(map.get_animation(TileIndex(3)).is_none());
    let data = TileLayer::from_data(1, "l", 4, 3, "0,0,0,0\n0,0,0,0\n4,0,0,0", false).unwrap();
    let mut context = RenderContext::new(320, 200, 5);
    map.draw_tile_layer(&data, &mut context, RenderLayer::Player, Rect { x: 0, y: 0, w: 40, h: 40 }, Point::new(0, 0));
    assert_eq!(
        context.player_batch.entries,
        vec![sprite_entry(strip, Rect { x: 32, y: 0, w: 16, h: 16 }, Rect { x: 0, y: 32, w: 16, h: 8 })]
    );
}

#[test]
fn background_and_foreground_split_at_player_layer() {
    let black = Color { r: 0, g: 0, b: 0, a: 255 };
    let picture = Sprite { id: 9, area: Rect { x: 0, y: 0, w: 30, h: 20 } };
    let layers = vec![
        Layer::Image(ImageLayer::new(picture)),
        layer("0,0,0,0\n0,0,0,0\n0,0,0,1", true),
        layer("1,0,0,0\n0,0,0,0\n0,0,0,0", false),
    ];
    let map = TileMap::new(4, 3, 16, 16, black, tilesets(), layers).unwrap();
    let dest = Rect { x: 0, y: 0, w: 64, h: 48 };
    let mut context = RenderContext::new(320, 200, 0);
    map.draw_background(&mut context, RenderLayer::Player, dest, Point::new(5, 6));
    let entries = &context.player_batch.entries;
    assert_eq!(entries.len(), 3);
    assert_eq!(entries[0], SpriteBatchEntry::FillRect { destination: dest, color: black });
    assert_eq!(
        entries[1],
        sprite_entry(picture, Rect { x: 0, y: 0, w: 30, h: 20 }, Rect { x: 5, y: 6, w: 30, h: 20 })
    );
    map.draw_foreground(&mut context, RenderLayer::Hud, dest, Point::new(0, 0));
    assert_eq!(
        context.hud_batch.entries,
        vec![sprite_entry(atlas(1), Rect { x: 0, y: 0, w: 16, h: 16 }, Rect { x: 0, y: 0, w: 16, h: 16 })]
    );
}
