use meez3d::color::Color;
use meez3d::constants::RENDER_HEIGHT;
use meez3d::level::{
    create_random_map, create_random_row, interior_tile_from, Footprint, SOLID_SPAWN_THRESHOLD, draw_path_overlay, draw_wall_strip, CellExit, CellProbe, PathIndex, Tile,
    TileGrid,
};
use meez3d::geometry::Rect;
use meez3d::rendercontext::{SpriteBatch, SpriteBatchEntry};

fn white() -> Color {
    Color { r: 255, g: 255, b: 255, a: 255 }
}

fn bordered_grid(width: usize, height: usize) -> TileGrid {
    let mut rows = Vec::new();
    for r in 0..height {
        let mut row = Vec::new();
        for c in 0..width {
            if r == 0 || c == 0 || r == height - 1 || c == width - 1 {
                row.push(Tile::Solid(white()));
            } else {
                row.push(Tile::Empty);
            }
        }
        rows.push(row);
    }
    TileGrid::from_rows(rows).unwrap()
}

/// Steps from `(row, column)` across `exit` until a solid cell or the edge.
fn cast_cells(grid: &TileGrid, row: usize, column: usize, exit: CellExit, path: &mut Option<Vec<PathIndex>>) -> Option<(usize, usize, Color)> {
    let (mut row, mut column) = (row, column);
    loop {
        match grid.probe(row, column, path) {
            CellProbe::Outside => return None,
            CellProbe::Hit(color) => return Some((row, column, color)),
            CellProbe::Open => {}
        }
        let next = grid.neighbor(row, column, exit)?;
        row = next.row;
        column = next.column;
    }
}

#[test]
fn cardinal_casts_hit_border() {
    let grid = bordered_grid(5, 5);
    // From (2.5, 2.5) facing along +x the ray enters column 4 through its left side.
    let (row, column, color) = cast_cells(&grid, 2, 2, CellExit::Right, &mut None).unwrap();
    assert_eq!((row, column), (2, 4));
    assert_eq!(color, white());
    let hit_x = column as f32 + 0.0;
    let hit_y = row as f32 + 0.5;
    assert_eq!((hit_x, hit_y), (4.0, 2.5));
    assert_eq!(hit_x - 2.5, 1.5);
    assert_eq!(CellExit::Right.entry_normal(), 2);

    let (row, column, _) = cast_cells(&grid, 2, 2, CellExit::Left, &mut None).unwrap();
    assert_eq!((row, column), (2, 0));
    assert_eq!(CellExit::Left.entry_normal(), 0);
    let (row, column, _) = cast_cells(&grid, 2, 2, CellExit::Down, &mut None).unwrap();
    assert_eq!((row, column), (4, 2));
    assert_eq!(CellExit::Down.entry_normal(), 3);
    let (row, column, _) = cast_cells(&grid, 2, 2, CellExit::Up, &mut None).unwrap();
    assert_eq!((row, column), (0, 2));
    assert_eq!(CellExit::Up.entry_normal(), 1);
}

#[test]
fn cast_records_path() {
    let grid = bordered_grid(5, 5);
    let mut path = Some(Vec::new());
    cast_cells(&grid, 1, 1, CellExit::Right, &mut path).unwrap();
    let cells: Vec<(usize, usize)> = path.unwrap().iter().map(|p| (p.row, p.column)).collect();
    assert_eq!(cells, vec![(1, 1), (1, 2), (1, 3), (1, 4)]);
}

#[test]
fn probe_outside_and_neighbors_at_edges() {
    let grid = bordered_grid(3, 3);
    let mut path = Some(Vec::new());
    assert_eq!(grid.probe(3, 0, &mut path), CellProbe::Outside);
    assert_eq!(path.unwrap().len(), 0);
    assert_eq!(grid.neighbor(0, 0, CellExit::Left), None);
    assert_eq!(grid.neighbor(0, 0, CellExit::Up), None);
    assert_eq!(grid.neighbor(0, 0, CellExit::Right), Some(PathIndex { row: 0, column: 1 }));
    assert_eq!(grid.neighbor(0, 0, CellExit::Down), Some(PathIndex { row: 1, column: 0 }));
}

#[test]
fn random_map_casts_stay_inside() {
    let grid = create_random_map(32, 40);
    assert_eq!(grid.width(), 32);
    assert_eq!(grid.height(), 40);
    for r in 0..40 {
        for c in 0..32 {
            let tile = grid.get(r, c);
            if r == 0 || c == 0 || r == 39 || c == 31 {
                assert_eq!(tile, Tile::Solid(white()));
            } else if let Tile::Solid(color) = tile {
                assert_eq!(color.a, 255);
            }
        }
    }
    for r in 1..39 {
        for c in 1..31 {
            if grid.get(r, c) != Tile::Empty {
                continue;
            }
            for exit in [CellExit::Left, CellExit::Right, CellExit::Up, CellExit::Down] {
                let (hr, hc, _) = cast_cells(&grid, r, c, exit, &mut None).unwrap();
                assert!(hr < 40 && hc < 32);
            }
        }
    }
}

#[test]
fn random_row_has_border_ends() {
    let row = create_random_row(10, white());
    assert_eq!(row.len(), 10);
    assert_eq!(row[0], Tile::Solid(white()));
    assert_eq!(row[9], Tile::Solid(white()));
}

#[test]
fn ragged_rows_are_refused() {
    assert!(TileGrid::from_rows(vec![vec![Tile::Empty; 3], vec![Tile::Empty; 2]]).is_none());
    assert!(TileGrid::from_rows(Vec::new()).is_none());
}

#[test]
fn wall_blocks_one_axis_only() {
    // A horizontal wall along row 2, columns 1..=3.
    let mut rows = Vec::new();
    for r in 0..6 {
        let mut row = Vec::new();
        for c in 0..6 {
            let border = r == 0 || c == 0 || r == 5 || c == 5;
            let wall = r == 2 && (1..=3).contains(&c);
            row.push(if border || wall { Tile::Solid(white()) } else { Tile::Empty });
        }
        rows.push(row);
    }
    let grid = TileGrid::from_rows(rows).unwrap();
    // The player stands at (2.5, 3.5); a move up and right would take the y
    // coordinate into the wall's row, so that part is refused...
    assert!(!grid.can_occupy(2, 2, false, false, false, false));
    // ...while the x part, from the unchanged row, is allowed.
    assert!(grid.can_occupy(3, 2, false, false, false, false));
    assert!(grid.can_occupy(3, 3, false, false, false, false));
    // Close to the top of the cell, the wall above is in reach.
    assert!(!grid.can_occupy(3, 2, false, true, false, false));
    assert!(grid.can_occupy(3, 4, false, false, false, false));
    assert!(!grid.can_occupy(3, 4, false, false, true, false));
}

#[test]
fn map_overlay_draws_every_cell() {
    let grid = bordered_grid(3, 2);
    let mut batch = SpriteBatch::new();
    grid.draw_map_overlay(&mut batch, 10, 10);
    assert_eq!(batch.entries.len(), 6);
    assert_eq!(
        batch.entries[4],
        SpriteBatchEntry::FillRect { destination: Rect { x: 10, y: 10, w: 10, h: 10 }, color: white() }
    );
    let grid = bordered_grid(3, 3);
    let mut batch = SpriteBatch::new();
    grid.draw_map_overlay(&mut batch, 10, 10);
    assert_eq!(
        batch.entries[4],
        SpriteBatchEntry::FillRect {
            destination: Rect { x: 10, y: 10, w: 10, h: 10 },
            color: Color { r: 0, g: 0, b: 0, a: 255 }
        }
    );
}

#[test]
fn path_overlay_draws_cells_in_order() {
    let mut batch = SpriteBatch::new();
    let path = vec![PathIndex { row: 1, column: 2 }, PathIndex { row: 3, column: 0 }];
    let color = Color { r: 255, g: 255, b: 255, a: 0x44 };
    draw_path_overlay(&mut batch, &path, 10, 10, color);
    assert_eq!(
        batch.entries,
        vec![
            SpriteBatchEntry::FillRect { destination: Rect { x: 20, y: 10, w: 10, h: 10 }, color },
            SpriteBatchEntry::FillRect { destination: Rect { x: 0, y: 30, w: 10, h: 10 }, color },
        ]
    );
}

#[test]
fn wall_strip_is_centred_vertical_rect() {
    let mut batch = SpriteBatch::new();
    draw_wall_strip(&mut batch, 5, 100, white());
    assert_eq!(
        batch.entries[0],
        SpriteBatchEntry::FillRect { destination: Rect { x: 325, y: 50, w: 1, h: 100 }, color: white() }
    );
    draw_wall_strip(&mut batch, 0, RENDER_HEIGHT as i32, white());
    assert_eq!(
        batch.entries[1],
        SpriteBatchEntry::FillRect { destination: Rect { x: 320, y: 0, w: 1, h: 200 }, color: white() }
    );
}

#[test]
fn spawn_rule_for_interior_tiles() {
    assert_eq!(interior_tile_from(0, 1, 2, 3), Tile::Solid(Color { r: 1, g: 2, b: 3, a: 255 }));
    assert_eq!(
        interior_tile_from(SOLID_SPAWN_THRESHOLD - 1, 9, 8, 7),
        Tile::Solid(Color { r: 9, g: 8, b: 7, a: 255 })
    );
    assert_eq!(interior_tile_from(SOLID_SPAWN_THRESHOLD, 1, 2, 3), Tile::Empty);
    assert_eq!(interior_tile_from(u32::MAX, 1, 2, 3), Tile::Empty);
}

#[test]
fn move_slides_along_wall() {
    // A horizontal wall along row 2, columns 1..=3, above a player in row 3.
    let mut rows = Vec::new();
    for r in 0..6 {
        let mut row = Vec::new();
        for c in 0..6 {
            let border = r == 0 || c == 0 || r == 5 || c == 5;
            let wall = r == 2 && (1..=3).contains(&c);
            row.push(if border || wall { Tile::Solid(white()) } else { Tile::Empty });
        }
        rows.push(row);
    }
    let grid = TileGrid::from_rows(rows).unwrap();
    let at = |row, column| Footprint { row, column, near_left: false, near_top: false, near_right: false, near_bottom: false };
    // Moving up and right from (2.5, 3.5) to (3.5, 2.9): up is refused, right is applied.
    assert_eq!(grid.move_decision(at(2, 2), at(2, 3), at(3, 3)), (false, true));
    // With no wall in the way both parts apply.
    assert_eq!(grid.move_decision(at(3, 2), at(3, 3), at(4, 3)), (true, true));
}
