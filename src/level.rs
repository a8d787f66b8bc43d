use vstd::prelude::*;

use crate::color::Color;
use crate::constants::{RENDER_HEIGHT, RENDER_WIDTH};
use crate::geometry::{Point, Rect};
use crate::rendercontext::{line_entry, SpriteBatch, SpriteBatchEntry};

verus! {

/// One cell of the level's grid.
#[derive(Debug, Clone, Copy, PartialEq, Eq, Structural)]
pub enum Tile {
    Empty,
    Solid(Color),
}

/// A cell visited by a ray, kept for drawing the ray's path.
#[derive(Debug, Clone, Copy, PartialEq, Eq, Structural)]
pub struct PathIndex {
    pub row: usize,
    pub column: usize,
}

/// Whether `rows` holds `height` rows of `width` cells each.
pub open spec fn rectangular(rows: Seq<Seq<Tile>>, width: int, height: int) -> bool {
    &&& rows.len() == height
    &&& forall|r: int| 0 <= r < height ==> #[trigger] rows[r].len() == width
}

/// Whether the cell lies on the outermost ring of the grid.
pub open spec fn on_border(row: int, column: int, width: int, height: int) -> bool {
    row == 0 || column == 0 || row == height - 1 || column == width - 1
}

/// Whether the grid is rectangular, at least two cells each way, and every cell of
/// its outermost ring is solid.
pub open spec fn bordered(rows: Seq<Seq<Tile>>, width: int, height: int) -> bool {
    &&& rectangular(rows, width, height)
    &&& width >= 2
    &&& height >= 2
    &&& forall|r: int, c: int|
        0 <= r < height && 0 <= c < width && on_border(r, c, width, height) ==> (#[trigger] rows[r][c]) is Solid
}

/// The side through which a ray leaves its current cell.
#[derive(Debug, Clone, Copy, PartialEq, Eq, Structural)]
pub enum CellExit {
    Left,
    Right,
    Up,
    Down,
}

/// What a ray finds at a cell.
#[derive(Debug, Clone, Copy, PartialEq, Eq, Structural)]
pub enum CellProbe {
    /// The cell lies outside the grid.
    Outside,
    /// The cell is solid, with this colour.
    Hit(Color),
    /// The cell is empty: the ray goes on.
    Open,
}

/// Where a sequence of cell steps ends.
pub enum WalkEnd {
    /// The ray left the grid.
    Escaped,
    /// The ray stopped at the solid cell `(row, column)`.
    HitAt(int, int),
    /// The steps ran out at the empty cell `(row, column)`.
    Travelling(int, int),
}

/// The cell next to `(row, column)` across the side `exit`; `None` where that
/// would lie left of column 0 or above row 0.
pub open spec fn neighbor_spec(row: int, column: int, exit: CellExit) -> Option<(int, int)> {
    match exit {
        CellExit::Right => Some((row, column + 1)),
        CellExit::Down => Some((row + 1, column)),
        CellExit::Left => if column == 0 {
            None
        } else {
            Some((row, column - 1))
        },
        CellExit::Up => if row == 0 {
            None
        } else {
            Some((row - 1, column))
        },
    }
}

/// The boundary normal of the cell entered through `exit`, in quarter turns
/// clockwise from +x: leaving to the right enters the next cell through its left
/// side, whose normal points left.
pub open spec fn entry_normal_spec(exit: CellExit) -> u32 {
    match exit {
        CellExit::Right => 2,
        CellExit::Left => 0,
        CellExit::Down => 3,
        CellExit::Up => 1,
    }
}

/// Whether a player whose position lies in `(row, column)` may stand there: the
/// cell is empty, and so is each side neighbour that the player's footprint
/// reaches into (`near_left` and so on), which must exist.
pub open spec fn occupiable(
    g: Seq<Seq<Tile>>,
    width: int,
    height: int,
    row: int,
    column: int,
    near_left: bool,
    near_top: bool,
    near_right: bool,
    near_bottom: bool,
) -> bool {
    &&& g[row][column] is Empty
    &&& (near_left ==> column > 0 && g[row][column - 1] is Empty)
    &&& (near_top ==> row > 0 && g[row - 1][column] is Empty)
    &&& (near_right ==> column < width - 1 && g[row][column + 1] is Empty)
    &&& (near_bottom ==> row < height - 1 && g[row + 1][column] is Empty)
}

/// The cell that a candidate player position falls in, and which side
/// neighbours the player's footprint reaches into there.
#[derive(Debug, Clone, Copy, PartialEq, Eq, Structural)]
pub struct Footprint {
    pub row: usize,
    pub column: usize,
    pub near_left: bool,
    pub near_top: bool,
    pub near_right: bool,
    pub near_bottom: bool,
}

/// Whether the player may stand at `f`.
pub open spec fn footprint_free(g: Seq<Seq<Tile>>, width: int, height: int, f: Footprint) -> bool {
    occupiable(g, width, height, f.row as int, f.column as int, f.near_left, f.near_top, f.near_right, f.near_bottom)
}

/// Which parts of a move are applied, vertical first: the vertical part when
/// its target `vertical` is free; then the horizontal part when its target is
/// free, taken from the new row (`horizontal_moved`) if the vertical part was
/// applied and from the unchanged row (`horizontal_stayed`) if not.
pub open spec fn move_parts(
    g: Seq<Seq<Tile>>,
    width: int,
    height: int,
    vertical: Footprint,
    horizontal_moved: Footprint,
    horizontal_stayed: Footprint,
) -> (bool, bool) {
    let apply_y = footprint_free(g, width, height, vertical);
    let apply_x = if apply_y {
        footprint_free(g, width, height, horizontal_moved)
    } else {
        footprint_free(g, width, height, horizontal_stayed)
    };
    (apply_y, apply_x)
}

/// A move whose vertical part would enter a solid cell loses that part only:
/// its horizontal part is still applied, from the unchanged row, whenever that
/// target is free. So the player slides along a wall instead of stopping.
pub proof fn lemma_movement_slides_along_walls(
    g: Seq<Seq<Tile>>,
    width: int,
    height: int,
    vertical: Footprint,
    horizontal_moved: Footprint,
    horizontal_stayed: Footprint,
)
    requires
        g[vertical.row as int][vertical.column as int] is Solid,
        footprint_free(g, width, height, horizontal_stayed),
    ensures
        move_parts(g, width, height, vertical, horizontal_moved, horizontal_stayed) == (false, true),
{
}

/// Follows a ray from `(row, column)` through the grid, leaving each empty cell
/// through the side that `exits` gives, in order.
pub open spec fn walk(g: Seq<Seq<Tile>>, width: int, height: int, row: int, column: int, exits: Seq<CellExit>) -> WalkEnd
    decreases exits.len(),
{
    if !(0 <= row < height && 0 <= column < width) {
        WalkEnd::Escaped
    } else if g[row][column] is Solid {
        WalkEnd::HitAt(row, column)
    } else if exits.len() == 0 {
        WalkEnd::Travelling(row, column)
    } else {
        match neighbor_spec(row, column, exits[0]) {
            None => WalkEnd::Escaped,
            Some(next) => walk(g, width, height, next.0, next.1, exits.drop_first()),
        }
    }
}

/// From an empty cell of a grid with a solid border, a step across any side lands
/// on a cell inside the grid.
pub proof fn lemma_step_stays_inside(g: Seq<Seq<Tile>>, width: int, height: int, row: int, column: int, exit: CellExit)
    requires
        bordered(g, width, height),
        0 <= row < height,
        0 <= column < width,
        g[row][column] is Empty,
    ensures
        neighbor_spec(row, column, exit) is Some,
        0 <= neighbor_spec(row, column, exit)->Some_0.0 < height,
        0 <= neighbor_spec(row, column, exit)->Some_0.1 < width,
{
    if on_border(row, column, width, height) {
        assert(g[row][column] is Solid);
    }
}

/// A ray that starts inside a grid with a solid border never leaves it, whatever
/// sides it crosses: it either stops at a solid cell inside the grid or is still
/// travelling through an empty one.
pub proof fn lemma_walk_stays_inside(g: Seq<Seq<Tile>>, width: int, height: int, row: int, column: int, exits: Seq<CellExit>)
    requires
        bordered(g, width, height),
        0 <= row < height,
        0 <= column < width,
    ensures
        match walk(g, width, height, row, column, exits) {
            WalkEnd::HitAt(r, c) => 0 <= r < height && 0 <= c < width && g[r][c] is Solid,
            WalkEnd::Travelling(r, c) => 0 <= r < height && 0 <= c < width && g[r][c] is Empty,
            WalkEnd::Escaped => false,
        },
    decreases exits.len(),
{
    if g[row][column] is Empty && exits.len() > 0 {
        lemma_step_stays_inside(g, width, height, row, column, exits[0]);
        let next = neighbor_spec(row, column, exits[0])->Some_0;
        lemma_walk_stays_inside(g, width, height, next.0, next.1, exits.drop_first());
    }
}

/// How many cells lie between `(row, column)` and the grid's outer ring in the
/// directions `across` (left or right) and `along` (up or down), together.
pub open spec fn cells_to_border(width: int, height: int, row: int, column: int, across: CellExit, along: CellExit) -> int {
    (if across == CellExit::Right { width - 1 - column } else { column }) + (if along == CellExit::Down {
        height - 1 - row
    } else {
        row
    })
}

/// A ray whose steps keep to one quadrant (each step crosses the side `across`,
/// left or right, or the side `along`, up or down) ends at a solid cell of a
/// grid with a solid border within as many steps as there are cells between its
/// start and the border: it cannot travel on for ever.
pub proof fn lemma_walk_in_quadrant_ends(
    g: Seq<Seq<Tile>>,
    width: int,
    height: int,
    row: int,
    column: int,
    exits: Seq<CellExit>,
    across: CellExit,
    along: CellExit,
)
    requires
        bordered(g, width, height),
        0 <= row < height,
        0 <= column < width,
        across == CellExit::Left || across == CellExit::Right,
        along == CellExit::Up || along == CellExit::Down,
        forall|i: int| 0 <= i < exits.len() ==> #[trigger] exits[i] == across || exits[i] == along,
        exits.len() > cells_to_border(width, height, row, column, across, along),
    ensures
        walk(g, width, height, row, column, exits) is HitAt,
    decreases exits.len(),
{
    if g[row][column] is Empty {
        if on_border(row, column, width, height) {
            assert(g[row][column] is Solid);
        }
        lemma_step_stays_inside(g, width, height, row, column, exits[0]);
        let next = neighbor_spec(row, column, exits[0])->Some_0;
        assert(exits[0] == across || exits[0] == along);
        assert(cells_to_border(width, height, next.0, next.1, across, along) == cells_to_border(
            width,
            height,
            row,
            column,
            across,
            along,
        ) - 1);
        let rest = exits.drop_first();
        assert forall|i: int| 0 <= i < rest.len() implies #[trigger] rest[i] == across || rest[i] == along by {
            assert(rest[i] == exits[i + 1]);
        }
        lemma_walk_in_quadrant_ends(g, width, height, next.0, next.1, rest, across, along);
    }
}

/// A rectangular grid of tiles, `height` rows of `width` cells, row 0 at the top.
pub struct TileGrid {
    tiles: Vec<Vec<Tile>>,
    width: usize,
    height: usize,
}

impl View for TileGrid {
    type V = Seq<Seq<Tile>>;

    closed spec fn view(&self) -> Seq<Seq<Tile>> {
        self.tiles@.map_values(|row: Vec<Tile>| row@)
    }
}

impl TileGrid {
    pub closed spec fn spec_width(&self) -> int {
        self.width as int
    }

    pub closed spec fn spec_height(&self) -> int {
        self.height as int
    }

    /// The rows have the recorded extents.
    pub closed spec fn wf(&self) -> bool {
        &&& self.tiles@.len() == self.height
        &&& forall|r: int| 0 <= r < self.height ==> #[trigger] self.tiles@[r]@.len() == self.width
    }

    proof fn lemma_view_rectangular(&self)
        requires
            self.wf(),
        ensures
            rectangular(self@, self.spec_width(), self.spec_height()),
    {
        assert forall|r: int| 0 <= r < self.height implies #[trigger] self@[r].len() == self.width by {
            assert(self@[r] == self.tiles@[r]@);
        }
    }

    /// The tile at `(row, column)`.
    pub open spec fn tile_at(&self, row: int, column: int) -> Tile {
        self@[row][column]
    }

    pub open spec fn is_bordered(&self) -> bool {
        bordered(self@, self.spec_width(), self.spec_height())
    }

    pub open spec fn in_bounds(&self, row: int, column: int) -> bool {
        0 <= row < self.spec_height() && 0 <= column < self.spec_width()
    }

    pub fn width(&self) -> (r: usize)
        ensures
            r == self.spec_width(),
    {
        self.width
    }

    pub fn height(&self) -> (r: usize)
        ensures
            r == self.spec_height(),
    {
        self.height
    }

    /// A grid from its rows, top row first; `None` unless there is at least one row
    /// and every row is as long as the first.
    pub fn from_rows(rows: Vec<Vec<Tile>>) -> (r: Option<TileGrid>)
        ensures
            match r {
                Some(g) => {
                    &&& g.wf()
                    &&& g@ == rows@.map_values(|row: Vec<Tile>| row@)
                    &&& g.spec_height() == rows@.len()
                    &&& g.spec_width() == rows@[0]@.len()
                },
                None => rows@.len() == 0 || exists|i: int|
                    0 <= i < rows@.len() && #[trigger] rows@[i]@.len() != rows@[0]@.len(),
            },
    {
        if rows.len() == 0 {
            return None;
        }
        let width = rows[0].len();
        let height = rows.len();
        let mut i: usize = 0;
        while i < height
            invariant
                height == rows@.len(),
                width == rows@[0]@.len(),
                i <= height,
                forall|k: int| 0 <= k < i ==> #[trigger] rows@[k]@.len() == width,
            decreases height - i,
        {
            if rows[i].len() != width {
                return None;
            }
            i = i + 1;
        }
        let g = TileGrid { tiles: rows, width, height };
        assert(g@ =~= rows@.map_values(|row: Vec<Tile>| row@));
        Some(g)
    }

    /// The tile at `(row, column)`.
    pub fn get(&self, row: usize, column: usize) -> (r: Tile)
        requires
            self.wf(),
            self.in_bounds(row as int, column as int),
        ensures
            r == self.tile_at(row as int, column as int),
    {
        self.tiles[row][column]
    }
}

impl CellExit {
    /// The boundary normal of the cell entered through this side, in quarter turns.
    pub fn entry_normal(&self) -> (r: u32)
        ensures
            r == entry_normal_spec(*self),
    {
        match self {
            CellExit::Right => 2,
            CellExit::Left => 0,
            CellExit::Down => 3,
            CellExit::Up => 1,
        }
    }
}

impl TileGrid {
    /// What a ray finds at `(row, column)`. A cell inside the grid is appended to
    /// `path` when one is kept; a cell outside is not.
    pub fn probe(&self, row: usize, column: usize, path: &mut Option<Vec<PathIndex>>) -> (r: CellProbe)
        requires
            self.wf(),
        ensures
            !self.in_bounds(row as int, column as int) ==> r == CellProbe::Outside && *final(path) == *old(path),
            self.in_bounds(row as int, column as int) ==> {
                &&& r == match self.tile_at(row as int, column as int) {
                    Tile::Solid(c) => CellProbe::Hit(c),
                    Tile::Empty => CellProbe::Open,
                }
                &&& match *old(path) {
                    Some(p) => *final(path) is Some && final(path)->Some_0@ == p@.push(PathIndex { row, column }),
                    None => *final(path) is None,
                }
            },
    {
        if row >= self.height || column >= self.width {
            return CellProbe::Outside;
        }
        match path {
            Some(p) => p.push(PathIndex { row, column }),
            None => {},
        }
        match self.tiles[row][column] {
            Tile::Solid(color) => CellProbe::Hit(color),
            Tile::Empty => CellProbe::Open,
        }
    }

    /// The cell next to `(row, column)` across `exit`, or `None` where it would lie
    /// left of column 0 or above row 0.
    pub fn neighbor(&self, row: usize, column: usize, exit: CellExit) -> (r: Option<PathIndex>)
        requires
            self.in_bounds(row as int, column as int),
        ensures
            match neighbor_spec(row as int, column as int, exit) {
                Some(n) => r == Some(PathIndex { row: n.0 as usize, column: n.1 as usize }),
                None => r is None,
            },
    {
        match exit {
            CellExit::Right => Some(PathIndex { row, column: column + 1 }),
            CellExit::Down => Some(PathIndex { row: row + 1, column }),
            CellExit::Left => if column == 0 {
                None
            } else {
                Some(PathIndex { row, column: column - 1 })
            },
            CellExit::Up => if row == 0 {
                None
            } else {
                Some(PathIndex { row: row - 1, column })
            },
        }
    }

    /// Decides which parts of a move are applied; see `move_parts`.
    pub fn move_decision(&self, vertical: Footprint, horizontal_moved: Footprint, horizontal_stayed: Footprint) -> (r: (bool, bool))
        requires
            self.wf(),
            self.in_bounds(vertical.row as int, vertical.column as int),
            self.in_bounds(horizontal_moved.row as int, horizontal_moved.column as int),
            self.in_bounds(horizontal_stayed.row as int, horizontal_stayed.column as int),
        ensures
            r == move_parts(self@, self.spec_width(), self.spec_height(), vertical, horizontal_moved, horizontal_stayed),
    {
        let apply_y = self.can_occupy(
            vertical.row,
            vertical.column,
            vertical.near_left,
            vertical.near_top,
            vertical.near_right,
            vertical.near_bottom,
        );
        let x = if apply_y {
            horizontal_moved
        } else {
            horizontal_stayed
        };
        let apply_x = self.can_occupy(x.row, x.column, x.near_left, x.near_top, x.near_right, x.near_bottom);
        (apply_y, apply_x)
    }

    /// Whether a player whose position lies in `(row, column)` may stand there; the
    /// flags say which side neighbours the player's footprint reaches into.
    pub fn can_occupy(
        &self,
        row: usize,
        column: usize,
        near_left: bool,
        near_top: bool,
        near_right: bool,
        near_bottom: bool,
    ) -> (r: bool)
        requires
            self.wf(),
            self.in_bounds(row as int, column as int),
        ensures
            r == occupiable(
                self@,
                self.spec_width(),
                self.spec_height(),
                row as int,
                column as int,
                near_left,
                near_top,
                near_right,
                near_bottom,
            ),
    {
        if !matches!(self.tiles[row][column], Tile::Empty) {
            return false;
        }
        if near_left {
            if column == 0 || !matches!(self.tiles[row][column - 1], Tile::Empty) {
                return false;
            }
        }
        if near_top {
            if row == 0 || !matches!(self.tiles[row - 1][column], Tile::Empty) {
                return false;
            }
        }
        if near_right {
            if column >= self.width - 1 || !matches!(self.tiles[row][column + 1], Tile::Empty) {
                return false;
            }
        }
        if near_bottom {
            if row >= self.height - 1 || !matches!(self.tiles[row + 1][column], Tile::Empty) {
                return false;
            }
        }
        true
    }
}

/// Relies on rand::random: a value drawn from the thread-local generator; nothing
/// is known of which.
pub assume_specification<T>[ rand::random::<T> ]() -> (r: T)
    where
        rand::distributions::Standard: rand::distributions::Distribution<T>,
;

/// Draws below this, out of the whole `u32` range, make an interior cell solid:
/// about one cell in forty.
pub const SOLID_SPAWN_THRESHOLD: u32 = 107374182;

/// The colour of the outer ring of a generated level: opaque white.
pub open spec fn border_color() -> Color {
    Color { r: 255, g: 255, b: 255, a: 255 }
}

/// A tile that a generated level may hold inside its border: empty, or solid with
/// an opaque colour.
pub open spec fn interior_tile(t: Tile) -> bool {
    match t {
        Tile::Empty => true,
        Tile::Solid(c) => c.a == 255,
    }
}

/// The interior tile that the draws give: solid in the opaque colour `(r, g, b)`
/// when `draw` falls below the spawn threshold, empty otherwise.
pub open spec fn interior_tile_spec(draw: u32, r: u8, g: u8, b: u8) -> Tile {
    if draw < SOLID_SPAWN_THRESHOLD {
        Tile::Solid(Color { r, g, b, a: 255 })
    } else {
        Tile::Empty
    }
}

/// The interior tile that the draws give: solid in the opaque colour `(r, g, b)`
/// when `draw` falls below the spawn threshold, empty otherwise.
pub fn interior_tile_from(draw: u32, r: u8, g: u8, b: u8) -> (t: Tile)
    ensures
        t == interior_tile_spec(draw, r, g, b),
        interior_tile(t),
{
    if draw < SOLID_SPAWN_THRESHOLD {
        Tile::Solid(Color { r, g, b, a: 255 })
    } else {
        Tile::Empty
    }
}

/// An interior tile from fresh random draws.
fn random_interior_tile() -> (t: Tile)
    ensures
        exists|draw: u32, r: u8, g: u8, b: u8| t == interior_tile_spec(draw, r, g, b),
        interior_tile(t),
{
    let draw: u32 = rand::random::<u32>();
    if draw < SOLID_SPAWN_THRESHOLD {
        let r: u8 = rand::random::<u8>();
        let g: u8 = rand::random::<u8>();
        let b: u8 = rand::random::<u8>();
        interior_tile_from(draw, r, g, b)
    } else {
        interior_tile_from(draw, 0, 0, 0)
    }
}

/// A row of a generated level: `border_color` at both ends, random tiles between.
pub fn create_random_row(width: usize, border_color: Color) -> (r: Vec<Tile>)
    requires
        width >= 2,
    ensures
        r@.len() == width,
        r@[0] == Tile::Solid(border_color),
        r@[width - 1] == Tile::Solid(border_color),
        forall|c: int| 0 < c < width - 1 ==> interior_tile(#[trigger] r@[c]),
{
    let mut row: Vec<Tile> = Vec::new();
    row.push(Tile::Solid(border_color));
    let mut i: usize = 0;
    while i < width - 2
        invariant
            width >= 2,
            i <= width - 2,
            row@.len() == i + 1,
            row@[0] == Tile::Solid(border_color),
            forall|c: int| 0 < c < i + 1 ==> interior_tile(#[trigger] row@[c]),
        decreases width - 2 - i,
    {
        row.push(random_interior_tile());
        i = i + 1;
    }
    row.push(Tile::Solid(border_color));
    row
}

/// A row made of `width` copies of `tile`.
fn full_row(width: usize, tile: Tile) -> (r: Vec<Tile>)
    ensures
        r@.len() == width,
        forall|c: int| 0 <= c < width ==> #[trigger] r@[c] == tile,
{
    let mut row: Vec<Tile> = Vec::new();
    let mut i: usize = 0;
    while i < width
        invariant
            i <= width,
            row@.len() == i,
            forall|c: int| 0 <= c < i ==> #[trigger] row@[c] == tile,
        decreases width - i,
    {
        row.push(tile);
        i = i + 1;
    }
    row
}

/// A level of `height` rows of `width` cells: a ring of opaque white cells around a
/// random interior in which about one cell in forty is solid, with a random opaque
/// colour.
pub fn create_random_map(width: usize, height: usize) -> (r: TileGrid)
    requires
        width >= 2,
        height >= 2,
    ensures
        r.wf(),
        r.spec_width() == width,
        r.spec_height() == height,
        r.is_bordered(),
        forall|row: int, c: int|
            0 <= row < height && 0 <= c < width ==> {
                &&& on_border(row, c, width as int, height as int) ==> #[trigger] r.tile_at(row, c) == Tile::Solid(border_color())
                &&& !on_border(row, c, width as int, height as int) ==> interior_tile(r.tile_at(row, c))
            },
{
    let white = Color { r: 255, g: 255, b: 255, a: 255 };
    let mut rows: Vec<Vec<Tile>> = Vec::new();
    rows.push(full_row(width, Tile::Solid(white)));
    let mut i: usize = 0;
    while i < height - 2
        invariant
            width >= 2,
            height >= 2,
            i <= height - 2,
            white == border_color(),
            rows@.len() == i + 1,
            forall|k: int| 0 <= k < i + 1 ==> #[trigger] rows@[k]@.len() == width,
            forall|c: int| 0 <= c < width ==> #[trigger] rows@[0]@[c] == Tile::Solid(border_color()),
            forall|k: int| 0 < k < i + 1 ==> {
                &&& #[trigger] rows@[k]@[0] == Tile::Solid(border_color())
                &&& rows@[k]@[width - 1] == Tile::Solid(border_color())
                &&& forall|c: int| 0 < c < width - 1 ==> interior_tile(#[trigger] rows@[k]@[c])
            },
        decreases height - 2 - i,
    {
        let row = create_random_row(width, white);
        let ghost before = rows@;
        rows.push(row);
        assert forall|k: int| 0 < k < i + 2 implies {
            &&& #[trigger] rows@[k]@[0] == Tile::Solid(border_color())
            &&& rows@[k]@[width - 1] == Tile::Solid(border_color())
            &&& forall|c: int| 0 < c < width - 1 ==> interior_tile(#[trigger] rows@[k]@[c])
        } by {
            if k < i + 1 {
                assert(rows@[k] == before[k]);
            } else {
                assert(rows@[k] == row);
            }
        }
        i = i + 1;
    }
    let last = full_row(width, Tile::Solid(white));
    let ghost middle = rows@;
    rows.push(last);
    let grid = TileGrid { tiles: rows, width, height };
    assert forall|row: int, c: int|
        0 <= row < height && 0 <= c < width implies {
            &&& on_border(row, c, width as int, height as int) ==> #[trigger] grid.tile_at(row, c) == Tile::Solid(border_color())
            &&& !on_border(row, c, width as int, height as int) ==> interior_tile(grid.tile_at(row, c))
        } by {
        assert(grid@[row] == grid.tiles@[row]@);
        if row < height - 1 {
            assert(grid.tiles@[row] == middle[row]);
            if row == 0 {
                assert(middle[0]@[c] == Tile::Solid(border_color()));
            } else if c == 0 {
                assert(middle[row]@[0] == Tile::Solid(border_color()));
            } else if c == width - 1 {
                assert(middle[row]@[width - 1] == Tile::Solid(border_color()));
            } else {
                assert(interior_tile(middle[row]@[c]));
            }
        } else {
            assert(grid.tiles@[row] == last);
        }
    }
    proof {
        grid.lemma_view_rectangular();
        assert forall|row: int, c: int|
            0 <= row < height && 0 <= c < width && on_border(row, c, width as int, height as int) implies (#[trigger] grid@[row][c]) is Solid by {
            assert(grid.tile_at(row, c) == Tile::Solid(border_color()));
        }
    }
    grid
}

/// The colour in which the top-down map shows a tile: empty cells opaque black,
/// solid ones in their own colour.
pub open spec fn overlay_color(t: Tile) -> Color {
    match t {
        Tile::Empty => Color { r: 0, g: 0, b: 0, a: 255 },
        Tile::Solid(c) => c,
    }
}

/// The square that stands for cell `(row, column)` on the top-down map.
pub open spec fn cell_rect(row: int, column: int, cell_w: i32, cell_h: i32) -> Rect<i32> {
    Rect { x: (column * cell_w) as i32, y: (row * cell_h) as i32, w: cell_w, h: cell_h }
}

/// Whether the top-down map of a grid of `width` by `height` cells has
/// representable coordinates.
pub open spec fn overlay_fits(width: int, height: int, cell_w: i32, cell_h: i32) -> bool {
    &&& cell_w >= 0
    &&& cell_h >= 0
    &&& width <= i32::MAX
    &&& height <= i32::MAX
    &&& width * cell_w <= i32::MAX
    &&& height * cell_h <= i32::MAX
}

/// The top of the wall strip `height` pixels tall, centred vertically on the frame.
pub open spec fn strip_offset(height: i32) -> int {
    (RENDER_HEIGHT as int - height) / 2
}

/// The entry for the wall strip of screen column `column`: a vertical segment one
/// pixel wide in the right-hand view, centred vertically.
pub open spec fn wall_strip_entry(column: i32, height: i32, color: Color) -> SpriteBatchEntry {
    let x = (RENDER_WIDTH + column) as i32;
    let top = strip_offset(height) as i32;
    line_entry(Point { x, y: top }, Point { x, y: (top + height) as i32 }, color, 1)
}

impl TileGrid {
    /// Draws the top-down map: one square of `cell_w` by `cell_h` per cell, row by
    /// row from the top, each row from the left.
    pub fn draw_map_overlay(&self, batch: &mut SpriteBatch, cell_w: i32, cell_h: i32)
        requires
            self.wf(),
            overlay_fits(self.spec_width(), self.spec_height(), cell_w, cell_h),
        ensures
            final(batch).clear_color == old(batch).clear_color,
            final(batch).entries@.len() == old(batch).entries@.len() + self.spec_width() * self.spec_height(),
            forall|i: int| 0 <= i < old(batch).entries@.len() ==> final(batch).entries@[i] == old(batch).entries@[i],
            forall|row: int, column: int|
                0 <= row < self.spec_height() && 0 <= column < self.spec_width() ==> final(batch).entries@[old(batch).entries@.len() + row * self.spec_width() + column]
                    == (SpriteBatchEntry::FillRect {
                    destination: cell_rect(row, column, cell_w, cell_h),
                    color: overlay_color(#[trigger] self.tile_at(row, column)),
                }),
    {
        let ghost base = batch.entries@.len() as int;
        let ghost w = self.width as int;
        let mut i: usize = 0;
        while i < self.height
            invariant
                self.wf(),
                overlay_fits(w, self.spec_height(), cell_w, cell_h),
                w == self.spec_width(),
                base == old(batch).entries@.len(),
                i <= self.height,
                batch.clear_color == old(batch).clear_color,
                batch.entries@.len() == base + i * w,
                forall|k: int| 0 <= k < base ==> batch.entries@[k] == old(batch).entries@[k],
                forall|row: int, column: int|
                    0 <= row < i && 0 <= column < w ==> batch.entries@[base + row * w + column]
                        == (SpriteBatchEntry::FillRect {
                        destination: cell_rect(row, column, cell_w, cell_h),
                        color: overlay_color(#[trigger] self.tile_at(row, column)),
                    }),
            decreases self.height - i,
        {
            assert(self@[i as int] == self.tiles@[i as int]@);
            assert(i * cell_h <= self.height * cell_h) by (nonlinear_arith)
                requires
                    i < self.height,
                    cell_h >= 0,
            ;
            let y = i as i32 * cell_h;
            let mut j: usize = 0;
            while j < self.width
                invariant
                    self.wf(),
                    overlay_fits(w, self.spec_height(), cell_w, cell_h),
                    w == self.spec_width(),
                    base == old(batch).entries@.len(),
                    i < self.height,
                    j <= self.width,
                    y == i * cell_h,
                    self@[i as int] == self.tiles@[i as int]@,
                    batch.clear_color == old(batch).clear_color,
                    batch.entries@.len() == base + i * w + j,
                    forall|k: int| 0 <= k < base ==> batch.entries@[k] == old(batch).entries@[k],
                    forall|row: int, column: int|
                        0 <= row < i && 0 <= column < w ==> batch.entries@[base + row * w + column]
                            == (SpriteBatchEntry::FillRect {
                            destination: cell_rect(row, column, cell_w, cell_h),
                            color: overlay_color(#[trigger] self.tile_at(row, column)),
                        }),
                    forall|column: int|
                        0 <= column < j ==> batch.entries@[base + i * w + column]
                            == (SpriteBatchEntry::FillRect {
                            destination: cell_rect(i as int, column, cell_w, cell_h),
                            color: overlay_color(#[trigger] self.tile_at(i as int, column)),
                        }),
                decreases self.width - j,
            {
                assert(j * cell_w <= self.width * cell_w) by (nonlinear_arith)
                    requires
                        j < self.width,
                        cell_w >= 0,
                ;
                let x = j as i32 * cell_w;
                let color = match self.tiles[i][j] {
                    Tile::Empty => Color { r: 0, g: 0, b: 0, a: 255 },
                    Tile::Solid(c) => c,
                };
                let ghost before = batch.entries@;
                batch.fill_rect(Rect { x, y, w: cell_w, h: cell_h }, color);
                assert forall|row: int, column: int|
                    0 <= row < i && 0 <= column < w implies batch.entries@[base + row * w + column]
                        == (SpriteBatchEntry::FillRect {
                        destination: cell_rect(row, column, cell_w, cell_h),
                        color: overlay_color(#[trigger] self.tile_at(row, column)),
                    }) by {
                    assert(row * w + column < i * w) by (nonlinear_arith)
                        requires
                            0 <= row < i,
                            0 <= column < w,
                    ;
                    assert(batch.entries@[base + row * w + column] == before[base + row * w + column]);
                }
                assert forall|column: int|
                    0 <= column < j + 1 implies batch.entries@[base + i * w + column]
                        == (SpriteBatchEntry::FillRect {
                        destination: cell_rect(i as int, column, cell_w, cell_h),
                        color: overlay_color(#[trigger] self.tile_at(i as int, column)),
                    }) by {
                    if column < j {
                        assert(batch.entries@[base + i * w + column] == before[base + i * w + column]);
                    }
                }
                j = j + 1;
            }
            assert((i + 1) * w == i * w + w) by (nonlinear_arith);
            i = i + 1;
        }
        assert(self.height * w == w * self.height) by (nonlinear_arith);
    }
}

/// Draws the cells that a ray visited, as squares of `cell_w` by `cell_h` in
/// `color`, in the order visited.
pub fn draw_path_overlay(batch: &mut SpriteBatch, path: &Vec<PathIndex>, cell_w: i32, cell_h: i32, color: Color)
    requires
        forall|k: int|
            0 <= k < path@.len() ==> {
                &&& (#[trigger] path@[k]).column <= i32::MAX
                &&& path@[k].row <= i32::MAX
                &&& i32::MIN <= path@[k].column * cell_w <= i32::MAX
                &&& i32::MIN <= path@[k].row * cell_h <= i32::MAX
            },
    ensures
        final(batch).clear_color == old(batch).clear_color,
        final(batch).entries@ == old(batch).entries@ + path@.map_values(
            |p: PathIndex|
                SpriteBatchEntry::FillRect {
                    destination: cell_rect(p.row as int, p.column as int, cell_w, cell_h),
                    color,
                },
        ),
{
    let ghost drawn = path@.map_values(
        |p: PathIndex|
            SpriteBatchEntry::FillRect {
                destination: cell_rect(p.row as int, p.column as int, cell_w, cell_h),
                color,
            },
    );
    let mut k: usize = 0;
    while k < path.len()
        invariant
            k <= path@.len(),
            forall|m: int|
                0 <= m < path@.len() ==> {
                    &&& (#[trigger] path@[m]).column <= i32::MAX
                    &&& path@[m].row <= i32::MAX
                    &&& i32::MIN <= path@[m].column * cell_w <= i32::MAX
                    &&& i32::MIN <= path@[m].row * cell_h <= i32::MAX
                },
            drawn == path@.map_values(
                |p: PathIndex|
                    SpriteBatchEntry::FillRect {
                        destination: cell_rect(p.row as int, p.column as int, cell_w, cell_h),
                        color,
                    },
            ),
            batch.clear_color == old(batch).clear_color,
            batch.entries@ == old(batch).entries@ + drawn.take(k as int),
        decreases path@.len() - k,
    {
        let p = path[k];
        assert(i32::MIN <= path@[k as int].column * cell_w <= i32::MAX);
        let x = p.column as i32 * cell_w;
        let y = p.row as i32 * cell_h;
        batch.fill_rect(Rect { x, y, w: cell_w, h: cell_h }, color);
        assert(drawn.take(k + 1) =~= drawn.take(k as int).push(drawn[k as int]));
        k = k + 1;
    }
    assert(drawn.take(path@.len() as int) =~= drawn);
}

/// Draws the wall strip of screen column `column`: a vertical segment `height`
/// pixels tall, centred vertically, in the view to the right of the map.
pub fn draw_wall_strip(batch: &mut SpriteBatch, column: i32, height: i32, color: Color)
    requires
        0 <= column < RENDER_WIDTH,
        0 <= height <= RENDER_HEIGHT,
    ensures
        final(batch).clear_color == old(batch).clear_color,
        final(batch).entries@ == old(batch).entries@.push(wall_strip_entry(column, height, color)),
{
    let offset = (RENDER_HEIGHT as i32 - height) / 2;
    let x = RENDER_WIDTH as i32 + column;
    batch.draw_line(Point::new(x, offset), Point::new(x, offset + height), color, 1);
}

} // verus!
