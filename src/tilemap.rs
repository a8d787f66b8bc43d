use vstd::prelude::*;

use crate::animation::{
    chars_of, find_char, find_in_range, lemma_find_char, parse_unsigned, parse_unsigned_range, trim, trim_range,
};
use crate::color::Color;
use crate::geometry::{Point, Rect};
use crate::input::text_equals;
use crate::rendercontext::{RenderContext, RenderLayer, SpriteBatchEntry};
use crate::sprite::{Animation, Sprite};
use crate::tileset::{TileIndex, TileSet, TileSetList};

verus! {

/// A name that a map property does not allow.
#[derive(Debug, Clone, PartialEq, Eq)]
pub struct InvalidName {
    pub text: String,
}

/// What happens when a moving element passes its last position.
#[derive(Debug, Clone, Copy, PartialEq, Eq, Structural)]
pub enum Overflow {
    Oscillate,
    Wrap,
    Clamp,
}

/// The way a conveyor belt carries what stands on it.
#[derive(Debug, Clone, Copy, PartialEq, Eq, Structural)]
pub enum ConveyorDirection {
    Left,
    Right,
}

/// How a switch on a map behaves when pressed.
#[derive(Debug, Clone, Copy, PartialEq, Eq, Structural)]
pub enum ButtonType {
    OneShot,
    Toggle,
    Momentary,
    Smart,
}

pub open spec fn overflow_named(s: Seq<char>) -> Option<Overflow> {
    if s == "oscillate"@ {
        Some(Overflow::Oscillate)
    } else if s == "wrap"@ {
        Some(Overflow::Wrap)
    } else if s == "clamp"@ {
        Some(Overflow::Clamp)
    } else {
        None
    }
}

pub open spec fn conveyor_direction_named(s: Seq<char>) -> Option<ConveyorDirection> {
    if s == "W"@ {
        Some(ConveyorDirection::Left)
    } else if s == "E"@ {
        Some(ConveyorDirection::Right)
    } else {
        None
    }
}

pub open spec fn button_type_named(s: Seq<char>) -> Option<ButtonType> {
    if s == "oneshot"@ {
        Some(ButtonType::OneShot)
    } else if s == "toggle"@ {
        Some(ButtonType::Toggle)
    } else if s == "momentary"@ {
        Some(ButtonType::Momentary)
    } else if s == "smart"@ {
        Some(ButtonType::Smart)
    } else {
        None
    }
}

impl Overflow {
    /// Reads `oscillate`, `wrap` or `clamp`.
    pub fn parse(s: &str) -> (r: Result<Overflow, InvalidName>)
        ensures
            match overflow_named(s@) {
                Some(v) => r == Ok::<Overflow, InvalidName>(v),
                None => r is Err && r->Err_0.text@ == s@,
            },
    {
        if text_equals(s, "oscillate") {
            Ok(Overflow::Oscillate)
        } else if text_equals(s, "wrap") {
            Ok(Overflow::Wrap)
        } else if text_equals(s, "clamp") {
            Ok(Overflow::Clamp)
        } else {
            Err(InvalidName { text: s.to_owned() })
        }
    }
}

impl std::str::FromStr for Overflow {
    type Err = InvalidName;

    fn from_str(s: &str) -> Result<Overflow, InvalidName> {
        Overflow::parse(s)
    }
}

impl ConveyorDirection {
    /// Reads `W` (left) or `E` (right).
    pub fn parse(s: &str) -> (r: Result<ConveyorDirection, InvalidName>)
        ensures
            match conveyor_direction_named(s@) {
                Some(v) => r == Ok::<ConveyorDirection, InvalidName>(v),
                None => r is Err && r->Err_0.text@ == s@,
            },
    {
        if text_equals(s, "W") {
            Ok(ConveyorDirection::Left)
        } else if text_equals(s, "E") {
            Ok(ConveyorDirection::Right)
        } else {
            Err(InvalidName { text: s.to_owned() })
        }
    }
}

impl std::str::FromStr for ConveyorDirection {
    type Err = InvalidName;

    fn from_str(s: &str) -> Result<ConveyorDirection, InvalidName> {
        ConveyorDirection::parse(s)
    }
}

impl ButtonType {
    /// Reads `oneshot`, `toggle`, `momentary` or `smart`.
    pub fn parse(s: &str) -> (r: Result<ButtonType, InvalidName>)
        ensures
            match button_type_named(s@) {
                Some(v) => r == Ok::<ButtonType, InvalidName>(v),
                None => r is Err && r->Err_0.text@ == s@,
            },
    {
        if text_equals(s, "oneshot") {
            Ok(ButtonType::OneShot)
        } else if text_equals(s, "toggle") {
            Ok(ButtonType::Toggle)
        } else if text_equals(s, "momentary") {
            Ok(ButtonType::Momentary)
        } else if text_equals(s, "smart") {
            Ok(ButtonType::Smart)
        } else {
            Err(InvalidName { text: s.to_owned() })
        }
    }
}

impl std::str::FromStr for ButtonType {
    type Err = InvalidName;

    fn from_str(s: &str) -> Result<ButtonType, InvalidName> {
        ButtonType::parse(s)
    }
}

/// Why a layer's tile data was refused.
#[derive(Debug, Clone, Copy, PartialEq, Eq, Structural)]
pub enum LayerError {
    /// A comma-separated entry is not a tile index.
    InvalidTileIndex,
    /// A row holds `len` entries where the layer is `width` wide.
    RowLength { len: usize, width: u32 },
    /// The data holds `rows` rows where the layer is `height` high.
    Height { rows: usize, height: u32 },
}

/// Adds one comma-separated entry to the row read so far; empty entries are
/// skipped.
pub open spec fn entry_step(part: Seq<char>, row: Seq<usize>) -> Option<Seq<usize>> {
    if part.len() == 0 {
        Some(row)
    } else {
        match parse_unsigned(part, usize::MAX as nat) {
            Some(v) => Some(row.push(v as usize)),
            None => None,
        }
    }
}

/// Reads the comma-separated entries of `s` after the row `row` read so far.
pub open spec fn read_entries(s: Seq<char>, row: Seq<usize>) -> Option<Seq<usize>>
    decreases s.len(),
{
    match find_char(s, ',') {
        None => entry_step(s, row),
        Some(i) => if 0 <= i < s.len() {
            match entry_step(s.subrange(0, i), row) {
                None => None,
                Some(next) => read_entries(s.subrange(i + 1, s.len() as int), next),
            }
        } else {
            entry_step(s, row)
        },
    }
}

/// Adds one line of tile data to the rows read so far; blank lines are skipped.
pub open spec fn row_step(line: Seq<char>, rows: Seq<Seq<usize>>, width: u32) -> Result<Seq<Seq<usize>>, LayerError> {
    let l = trim(line);
    if l.len() == 0 {
        Ok(rows)
    } else {
        match read_entries(l, Seq::empty()) {
            None => Err(LayerError::InvalidTileIndex),
            Some(row) => if row.len() as u32 != width {
                Err(LayerError::RowLength { len: row.len() as usize, width })
            } else {
                Ok(rows.push(row))
            },
        }
    }
}

/// Reads the lines of `s` after the rows `rows` read so far.
pub open spec fn read_rows(s: Seq<char>, rows: Seq<Seq<usize>>, width: u32) -> Result<Seq<Seq<usize>>, LayerError>
    decreases s.len(),
{
    match find_char(s, '\n') {
        None => row_step(s, rows, width),
        Some(i) => if 0 <= i < s.len() {
            match row_step(s.subrange(0, i), rows, width) {
                Err(e) => Err(e),
                Ok(next) => read_rows(s.subrange(i + 1, s.len() as int), next, width),
            }
        } else {
            row_step(s, rows, width)
        },
    }
}

/// The tile indices that a layer's data spells: one row per non-blank line,
/// comma-separated indices, `width` to a row and `height` rows.
pub open spec fn layer_data_spec(s: Seq<char>, width: u32, height: u32) -> Result<Seq<Seq<usize>>, LayerError> {
    match read_rows(s, Seq::empty(), width) {
        Err(e) => Err(e),
        Ok(rows) => if rows.len() as u32 != height {
            Err(LayerError::Height { rows: rows.len() as usize, height })
        } else {
            Ok(rows)
        },
    }
}

pub open spec fn indices_view(row: Seq<TileIndex>) -> Seq<usize> {
    row.map_values(|t: TileIndex| t.0)
}

pub open spec fn rows_view(rows: Seq<Vec<TileIndex>>) -> Seq<Seq<usize>> {
    rows.map_values(|r: Vec<TileIndex>| indices_view(r@))
}

proof fn lemma_read_entries_unfold(s: Seq<char>, row: Seq<usize>)
    ensures
        read_entries(s, row) == match find_char(s, ',') {
            None => entry_step(s, row),
            Some(i) => if 0 <= i < s.len() {
                match entry_step(s.subrange(0, i), row) {
                    None => None,
                    Some(next) => read_entries(s.subrange(i + 1, s.len() as int), next),
                }
            } else {
                entry_step(s, row)
            },
        },
{
}

proof fn lemma_read_rows_unfold(s: Seq<char>, rows: Seq<Seq<usize>>, width: u32)
    ensures
        read_rows(s, rows, width) == match find_char(s, '\n') {
            None => row_step(s, rows, width),
            Some(i) => if 0 <= i < s.len() {
                match row_step(s.subrange(0, i), rows, width) {
                    Err(e) => Err(e),
                    Ok(next) => read_rows(s.subrange(i + 1, s.len() as int), next, width),
                }
            } else {
                row_step(s, rows, width)
            },
        },
{
}

/// Reads the comma-separated tile indices of `c[lo..hi]`.
fn read_entries_range(c: &Vec<char>, lo: usize, hi: usize) -> (r: Option<Vec<TileIndex>>)
    requires
        lo <= hi <= c@.len(),
    ensures
        match read_entries(c@.subrange(lo as int, hi as int), Seq::empty()) {
            Some(row) => r is Some && indices_view(r->Some_0@) == row,
            None => r is None,
        },
{
    let mut row: Vec<TileIndex> = Vec::new();
    let mut pos = lo;
    assert(indices_view(row@) =~= Seq::<usize>::empty());
    loop
        invariant
            lo <= pos <= hi <= c@.len(),
            read_entries(c@.subrange(lo as int, hi as int), Seq::empty()) == read_entries(
                c@.subrange(pos as int, hi as int),
                indices_view(row@),
            ),
        decreases hi - pos,
    {
        let ghost rest = c@.subrange(pos as int, hi as int);
        proof {
            lemma_find_char(rest, ',');
            lemma_read_entries_unfold(rest, indices_view(row@));
        }
        let comma = find_in_range(c, pos, hi, ',');
        let end = match comma {
            Some(k) => k,
            None => hi,
        };
        let ghost before = indices_view(row@);
        if end > pos {
            match parse_unsigned_range(c, pos, end, usize::MAX as u64) {
                None => {
                    proof {
                        if let Some(k) = comma {
                            assert(rest.subrange(0, k - pos) =~= c@.subrange(pos as int, end as int));
                        } else {
                            assert(rest =~= c@.subrange(pos as int, end as int));
                        }
                    }
                    return None;
                },
                Some(v) => {
                    row.push(TileIndex(v as usize));
                    assert(indices_view(row@) =~= before.push(v as usize));
                },
            }
        }
        proof {
            if let Some(k) = comma {
                assert(rest.subrange(0, k - pos) =~= c@.subrange(pos as int, end as int));
                assert(rest.subrange(k + 1 - pos, rest.len() as int) =~= c@.subrange(k + 1, hi as int));
            } else {
                assert(rest =~= c@.subrange(pos as int, end as int));
            }
        }
        match comma {
            None => {
                return Some(row);
            },
            Some(k) => {
                pos = k + 1;
            },
        }
    }
}

/// A layer of tiles: `height` rows of `width` tile indices, 0 for no tile.
pub struct TileLayer {
    id: u32,
    name: String,
    width: u32,
    height: u32,
    data: Vec<Vec<TileIndex>>,
    player: bool,
}

impl TileLayer {
    pub closed spec fn spec_data(&self) -> Seq<Seq<usize>> {
        rows_view(self.data@)
    }

    /// Whether the player is drawn on this layer: the layers above it are
    /// foreground.
    pub closed spec fn spec_player(&self) -> bool {
        self.player
    }

    pub fn player(&self) -> (r: bool)
        ensures
            r == self.spec_player(),
    {
        self.player
    }

    /// Reads a layer from its comma-separated tile data, one row per line.
    pub fn from_data(id: u32, name: &str, width: u32, height: u32, data: &str, player: bool) -> (r: Result<TileLayer, LayerError>)
        ensures
            match layer_data_spec(data@, width, height) {
                Ok(rows) => r is Ok && r->Ok_0.spec_data() == rows && r->Ok_0.spec_player() == player,
                Err(e) => r is Err && r->Err_0 == e,
            },
    {
        let c = chars_of(data);
        let n = c.len();
        let mut rows: Vec<Vec<TileIndex>> = Vec::new();
        let mut pos: usize = 0;
        assert(rows_view(rows@) =~= Seq::<Seq<usize>>::empty());
        assert(c@.subrange(0, n as int) =~= c@);
        loop
            invariant
                n == c@.len(),
                c@ == data@,
                pos <= n,
                read_rows(c@, Seq::empty(), width) == read_rows(c@.subrange(pos as int, n as int), rows_view(rows@), width),
            decreases n - pos,
        {
            let ghost rest = c@.subrange(pos as int, n as int);
            let ghost before = rows_view(rows@);
            proof {
                lemma_find_char(rest, '\n');
                lemma_read_rows_unfold(rest, before, width);
            }
            let newline = find_in_range(&c, pos, n, '\n');
            let end = match newline {
                Some(k) => k,
                None => n,
            };
            proof {
                if let Some(k) = newline {
                    assert(rest.subrange(0, k - pos) =~= c@.subrange(pos as int, end as int));
                    assert(rest.subrange(k + 1 - pos, rest.len() as int) =~= c@.subrange(k + 1, n as int));
                } else {
                    assert(rest =~= c@.subrange(pos as int, end as int));
                }
            }
            let (l0, l1) = trim_range(&c, pos, end);
            if l1 > l0 {
                match read_entries_range(&c, l0, l1) {
                    None => {
                        return Err(LayerError::InvalidTileIndex);
                    },
                    Some(row) => {
                        if row.len() as u32 != width {
                            return Err(LayerError::RowLength { len: row.len(), width });
                        }
                        let ghost rv = indices_view(row@);
                        rows.push(row);
                        assert(rows_view(rows@) =~= before.push(rv));
                    },
                }
            }
            match newline {
                None => {
                    if rows.len() as u32 != height {
                        return Err(LayerError::Height { rows: rows.len(), height });
                    }
                    return Ok(TileLayer { id, name: name.to_owned(), width, height, data: rows, player });
                },
                Some(k) => {
                    pos = k + 1;
                },
            }
        }
    }

    /// The tile index at `(row, col)`, if the layer has that cell.
    pub fn get(&self, row: usize, col: usize) -> (r: Option<&TileIndex>)
        ensures
            row < self.spec_data().len() && col < self.spec_data()[row as int].len() ==> r is Some && r->Some_0.0
                == self.spec_data()[row as int][col as int],
            !(row < self.spec_data().len() && col < self.spec_data()[row as int].len()) ==> r is None,
    {
        if row < self.data.len() {
            let r = &self.data[row];
            assert(self.spec_data()[row as int] == indices_view(r@));
            if col < r.len() {
                return Some(&r[col]);
            }
        }
        None
    }
}

/// A layer that shows one image.
pub struct ImageLayer {
    surface: Sprite,
}

impl ImageLayer {
    pub closed spec fn spec_surface(&self) -> Sprite {
        self.surface
    }

    pub fn new(surface: Sprite) -> (r: ImageLayer)
        ensures
            r.spec_surface() == surface,
    {
        ImageLayer { surface }
    }
}

/// A layer of a map.
pub enum Layer {
    Tile(TileLayer),
    Image(ImageLayer),
}

/// Why a map could not be assembled.
#[derive(Debug, Clone, Copy, PartialEq, Eq, Structural)]
pub enum MapError {
    /// A map needs at least one tileset.
    NoTileset,
    /// At most one layer can be the player's.
    TooManyPlayerLayers,
}

/// `a / b` rounded toward zero, for `b > 0`.
pub open spec fn div_toward_zero(a: int, b: int) -> int {
    if a >= 0 {
        a / b
    } else {
        -((-a) / b)
    }
}

/// `a / b` rounded up, for `b > 0`.
pub open spec fn div_ceil(a: int, b: int) -> int {
    if a >= 0 {
        (a + b - 1) / b
    } else {
        -((-a) / b)
    }
}

pub open spec fn fits_i32(v: int) -> bool {
    i32::MIN <= v <= i32::MAX
}

/// The index of the tileset that holds `gid`.
pub open spec fn holder(tilesets: &TileSetList, gid: usize) -> int {
    choose|i: int| tilesets.holds(i, gid)
}

/// The part of a tile's image that is drawn, and where it is drawn.
pub struct TilePlacement {
    pub source: Rect<i32>,
    pub destination: Rect<i32>,
}

/// Whether a layer is the one the player is drawn on.
pub open spec fn is_player_layer(layer: &Layer) -> bool {
    match layer {
        Layer::Tile(t) => t.spec_player(),
        Layer::Image(_) => false,
    }
}

/// The position of the first player layer among `layers[0..n]`.
pub open spec fn first_player_layer(layers: Seq<Layer>, n: int) -> Option<int>
    decreases n,
{
    if n <= 0 {
        None
    } else {
        match first_player_layer(layers, n - 1) {
            Some(p) => Some(p),
            None => if is_player_layer(&layers[n - 1]) {
                Some(n - 1)
            } else {
                None
            },
        }
    }
}

/// A map: tilesets, and layers of tiles or images drawn bottom to top.
pub struct TileMap {
    pub width: i32,
    pub height: i32,
    pub tilewidth: i32,
    pub tileheight: i32,
    backgroundcolor: Color,
    tilesets: TileSetList,
    layers: Vec<Layer>,
    player_layer: Option<i32>,
}

impl TileMap {
    pub closed spec fn spec_width(&self) -> i32 {
        self.width
    }

    pub closed spec fn spec_height(&self) -> i32 {
        self.height
    }

    pub closed spec fn spec_tilewidth(&self) -> i32 {
        self.tilewidth
    }

    pub closed spec fn spec_tileheight(&self) -> i32 {
        self.tileheight
    }

    pub closed spec fn spec_tilesets(&self) -> &TileSetList {
        &self.tilesets
    }

    pub closed spec fn spec_background(&self) -> Color {
        self.backgroundcolor
    }

    pub closed spec fn spec_player_layer(&self) -> Option<i32> {
        self.player_layer
    }

    /// The first and one-past-last rows drawn into `dest` moved by `offset`.
    pub open spec fn row_window(&self, dest: Rect<i32>, offset: Point<i32>) -> (int, int) {
        let start = if -div_toward_zero(offset.y as int, self.spec_tileheight() as int) > 0 {
            -div_toward_zero(offset.y as int, self.spec_tileheight() as int)
        } else {
            0
        };
        let count = div_ceil(dest.h as int, self.spec_tileheight() as int) + 1;
        (start, if start + count < self.spec_height() { start + count } else { self.spec_height() as int })
    }

    /// The first and one-past-last columns drawn into `dest` moved by `offset`.
    pub open spec fn col_window(&self, dest: Rect<i32>, offset: Point<i32>) -> (int, int) {
        let start = if -div_toward_zero(offset.x as int, self.spec_tilewidth() as int) > 0 {
            -div_toward_zero(offset.x as int, self.spec_tilewidth() as int)
        } else {
            0
        };
        let count = div_ceil(dest.w as int, self.spec_tilewidth() as int) + 1;
        (start, if start + count < self.spec_width() { start + count } else { self.spec_width() as int })
    }

    /// Where the tile of cell `(row, col)`, with source area `source`, lands: the
    /// cell's position moved by `dest` and `offset`, clipped to `dest`; `None`
    /// when nothing of it is left.
    pub open spec fn placement(&self, dest: Rect<i32>, offset: Point<i32>, row: int, col: int, source: Rect<i32>) -> Option<TilePlacement> {
        let pos_x0 = self.spec_tilewidth() * col + dest.x + offset.x;
        let pos_y0 = self.spec_tileheight() * row + dest.y + offset.y;
        let (sx, sw, pos_x) = if pos_x0 < dest.x {
            (source.x + (dest.x - pos_x0), source.w - (dest.x - pos_x0), dest.x as int)
        } else {
            (source.x as int, source.w as int, pos_x0)
        };
        let (sy, sh, pos_y) = if pos_y0 < dest.y {
            (source.y + (dest.y - pos_y0), source.h - (dest.y - pos_y0), dest.y as int)
        } else {
            (source.y as int, source.h as int, pos_y0)
        };
        if sw <= 0 || sh <= 0 {
            None
        } else {
            let right = pos_x + self.spec_tilewidth();
            let sw2 = if right >= dest.right_spec() { sw - (right - dest.right_spec()) } else { sw };
            if sw2 <= 0 {
                None
            } else {
                let bottom = pos_y + self.spec_tileheight();
                let sh2 = if bottom >= dest.bottom_spec() { sh - (bottom - dest.bottom_spec()) } else { sh };
                if sh2 <= 0 {
                    None
                } else {
                    Some(TilePlacement {
                        source: Rect { x: sx as i32, y: sy as i32, w: sw2 as i32, h: sh2 as i32 },
                        destination: Rect { x: pos_x as i32, y: pos_y as i32, w: sw2 as i32, h: sh2 as i32 },
                    })
                }
            }
        }
    }

    /// Every value that placing the tile computes is representable.
    pub open spec fn placement_fits(&self, dest: Rect<i32>, offset: Point<i32>, row: int, col: int, source: Rect<i32>) -> bool {
        let tw = self.spec_tilewidth() as int;
        let th = self.spec_tileheight() as int;
        let pos_x0 = tw * col + dest.x + offset.x;
        let pos_y0 = th * row + dest.y + offset.y;
        let (sx, sw, pos_x) = if pos_x0 < dest.x {
            (source.x + (dest.x - pos_x0), source.w - (dest.x - pos_x0), dest.x as int)
        } else {
            (source.x as int, source.w as int, pos_x0)
        };
        let (sy, sh, pos_y) = if pos_y0 < dest.y {
            (source.y + (dest.y - pos_y0), source.h - (dest.y - pos_y0), dest.y as int)
        } else {
            (source.y as int, source.h as int, pos_y0)
        };
        let right = pos_x + tw;
        let sw2 = if right >= dest.right_spec() { sw - (right - dest.right_spec()) } else { sw };
        let bottom = pos_y + th;
        &&& fits_i32(tw * col)
        &&& fits_i32(tw * col + dest.x)
        &&& fits_i32(pos_x0)
        &&& fits_i32(th * row)
        &&& fits_i32(th * row + dest.y)
        &&& fits_i32(pos_y0)
        &&& (pos_x0 < dest.x ==> fits_i32(dest.x - pos_x0) && fits_i32(sx) && fits_i32(sw))
        &&& (pos_y0 < dest.y ==> fits_i32(dest.y - pos_y0) && fits_i32(sy) && fits_i32(sh))
        &&& (sw > 0 && sh > 0 ==> {
            &&& fits_i32(right)
            &&& (right >= dest.right_spec() ==> fits_i32(right - dest.right_spec()) && fits_i32(sw2))
            &&& (sw2 > 0 ==> {
                &&& fits_i32(bottom)
                &&& (bottom >= dest.bottom_spec() ==> fits_i32(bottom - dest.bottom_spec()) && fits_i32(
                    sh - (bottom - dest.bottom_spec()),
                ))
            })
        })
    }

    /// The tileset that holds map-wide tile `gid`.
    pub open spec fn tileset_of(&self, gid: usize) -> TileSet {
        self.spec_tilesets().spec_tilesets()[holder(self.spec_tilesets(), gid)]
    }

    /// Whether cell `(row, col)` of `data` can be drawn: it is empty, or its tile
    /// belongs to a tileset, exists there, and lands at representable
    /// coordinates.
    pub open spec fn cell_drawable(&self, data: Seq<Seq<usize>>, dest: Rect<i32>, offset: Point<i32>, row: int, col: int) -> bool {
        let index = data[row][col];
        index != 0 ==> {
            &&& exists|i: int|
                0 <= i < self.spec_tilesets().spec_tilesets().len() && (#[trigger] self.spec_tilesets().spec_tilesets()[i]).spec_firstgid() <= index
            &&& self.tileset_of(index).source_rect_fits(index - self.tileset_of(index).spec_firstgid())
            &&& self.placement_fits(
                dest,
                offset,
                row,
                col,
                self.tileset_of(index).source_rect(index - self.tileset_of(index).spec_firstgid()),
            )
        }
    }

    /// What drawing cell `(row, col)` of `data` appends: nothing for an empty
    /// cell or a tile clipped away; otherwise the tile's animation frame due on
    /// rendered frame `frame`, or the tile itself.
    pub open spec fn tile_entry(&self, data: Seq<Seq<usize>>, dest: Rect<i32>, offset: Point<i32>, frame: u64, row: int, col: int) -> Seq<SpriteBatchEntry> {
        let index = data[row][col];
        if index == 0 {
            Seq::empty()
        } else {
            let ts = self.tileset_of(index);
            let tile_id = index - ts.spec_firstgid();
            match self.placement(dest, offset, row, col, ts.source_rect(tile_id)) {
                None => Seq::empty(),
                Some(p) => seq![
                    match ts.spec_animation(tile_id as usize) {
                        Some(a) => SpriteBatchEntry::Sprite {
                            sprite: a.spec_sheet().spec_sprite(),
                            source: a.spec_sheet().frame_area(a.frame_index(frame), 0),
                            destination: p.destination,
                            reversed: false,
                        },
                        None => SpriteBatchEntry::Sprite {
                            sprite: ts.spec_sprite(),
                            source: p.source,
                            destination: p.destination,
                            reversed: false,
                        },
                    },
                ],
            }
        }
    }

    /// What drawing columns `c0..c1` of row `row` appends, left to right.
    pub open spec fn row_entries(&self, data: Seq<Seq<usize>>, dest: Rect<i32>, offset: Point<i32>, frame: u64, row: int, c0: int, c1: int) -> Seq<SpriteBatchEntry>
        decreases c1 - c0,
    {
        if c1 <= c0 {
            Seq::empty()
        } else {
            self.row_entries(data, dest, offset, frame, row, c0, c1 - 1) + self.tile_entry(data, dest, offset, frame, row, c1 - 1)
        }
    }

    /// What drawing rows `r0..r1`, columns `c0..c1`, appends, row by row.
    pub open spec fn grid_entries(&self, data: Seq<Seq<usize>>, dest: Rect<i32>, offset: Point<i32>, frame: u64, r0: int, r1: int, c0: int, c1: int) -> Seq<SpriteBatchEntry>
        decreases r1 - r0,
    {
        if r1 <= r0 {
            Seq::empty()
        } else {
            self.grid_entries(data, dest, offset, frame, r0, r1 - 1, c0, c1) + self.row_entries(data, dest, offset, frame, r1 - 1, c0, c1)
        }
    }

    /// Whether a tile layer can be drawn into `dest` moved by `offset`: the
    /// windows of rows and columns are representable and within the layer's
    /// data, and every cell in them can be drawn.
    pub open spec fn tile_layer_drawable(&self, data: Seq<Seq<usize>>, dest: Rect<i32>, offset: Point<i32>) -> bool {
        let tw = self.spec_tilewidth() as int;
        let th = self.spec_tileheight() as int;
        let (r0, r1) = self.row_window(dest, offset);
        let (c0, c1) = self.col_window(dest, offset);
        &&& self.spec_tilesets().wf()
        &&& tw > 0
        &&& th > 0
        &&& dest.edges_fit()
        &&& fits_i32(-div_toward_zero(offset.y as int, th))
        &&& fits_i32(-div_toward_zero(offset.x as int, tw))
        &&& fits_i32(div_ceil(dest.h as int, th) + 1)
        &&& fits_i32(div_ceil(dest.w as int, tw) + 1)
        &&& fits_i32(r0 + div_ceil(dest.h as int, th) + 1)
        &&& fits_i32(c0 + div_ceil(dest.w as int, tw) + 1)
        &&& forall|row: int, col: int|
            r0 <= row < r1 && c0 <= col < c1 ==> #[trigger] self.window_cell_ok(data, dest, offset, row, col)
    }

    /// Cell `(row, col)` is in `data` and can be drawn.
    pub open spec fn window_cell_ok(&self, data: Seq<Seq<usize>>, dest: Rect<i32>, offset: Point<i32>, row: int, col: int) -> bool {
        &&& row < data.len()
        &&& col < data[row].len()
        &&& self.cell_drawable(data, dest, offset, row, col)
    }

    /// The tiles of `layer` that show within `dest`, the map moved by `offset`:
    /// row by row, each tile clipped to `dest`, animated tiles showing their
    /// current frame.
    pub fn draw_tile_layer(&self, layer: &TileLayer, context: &mut RenderContext, render_layer: RenderLayer, dest: Rect<i32>, offset: Point<i32>)
        requires
            self.tile_layer_drawable(layer.spec_data(), dest, offset),
        ensures
            RenderContext::layer_grown(
                old(context),
                final(context),
                render_layer,
                self.grid_entries(
                    layer.spec_data(),
                    dest,
                    offset,
                    old(context).frame,
                    self.row_window(dest, offset).0,
                    self.row_window(dest, offset).1,
                    self.col_window(dest, offset).0,
                    self.col_window(dest, offset).1,
                ),
            ),
    {
        let offset_x = offset.x;
        let offset_y = offset.y;
        let tileheight = self.tileheight;
        let tilewidth = self.tilewidth;
        let ghost data = layer.spec_data();
        let ghost frame = context.frame;

        // The number of rows and columns that can show, rounded up, plus one.
        let row_count = if dest.h >= 0 {
            ((dest.h as i64 + tileheight as i64 - 1) / tileheight as i64) as i32 + 1
        } else {
            -((-(dest.h as i64)) / tileheight as i64) as i32 + 1
        };
        let col_count = if dest.w >= 0 {
            ((dest.w as i64 + tilewidth as i64 - 1) / tilewidth as i64) as i32 + 1
        } else {
            -((-(dest.w as i64)) / tilewidth as i64) as i32 + 1
        };
        let neg_row = -(offset_y / tileheight);
        let start_row = if neg_row > 0 { neg_row } else { 0 };
        let end_row = if start_row + row_count < self.height { start_row + row_count } else { self.height };
        let neg_col = -(offset_x / tilewidth);
        let start_col = if neg_col > 0 { neg_col } else { 0 };
        let end_col = if start_col + col_count < self.width { start_col + col_count } else { self.width };
        assert(self.row_window(dest, offset) == (start_row as int, end_row as int));
        assert(self.col_window(dest, offset) == (start_col as int, end_col as int));

        assert(context.layer_entries(render_layer) + Seq::empty() =~= context.layer_entries(render_layer));
        let mut row = start_row;
        while row < end_row
            invariant
                self.tile_layer_drawable(data, dest, offset),
                data == layer.spec_data(),
                frame == old(context).frame,
                frame == context.frame,
                self.row_window(dest, offset) == (start_row as int, end_row as int),
                self.col_window(dest, offset) == (start_col as int, end_col as int),
                start_row <= row,
                row <= end_row || end_row <= start_row,
                end_row <= start_row ==> row == start_row,
                tileheight == self.tileheight,
                tilewidth == self.tilewidth,
                RenderContext::layer_grown(
                    old(context),
                    context,
                    render_layer,
                    self.grid_entries(data, dest, offset, frame, start_row as int, row as int, start_col as int, end_col as int),
                ),
            decreases end_row - row,
        {
            let ghost rows_before = self.grid_entries(data, dest, offset, frame, start_row as int, row as int, start_col as int, end_col as int);
            let ghost at_row_start = *context;
            assert(context.layer_entries(render_layer) + Seq::empty() =~= context.layer_entries(render_layer));
            let mut col = start_col;
            while col < end_col
                invariant
                    self.tile_layer_drawable(data, dest, offset),
                    data == layer.spec_data(),
                    frame == old(context).frame,
                    frame == context.frame,
                    self.row_window(dest, offset) == (start_row as int, end_row as int),
                    self.col_window(dest, offset) == (start_col as int, end_col as int),
                    start_row <= row < end_row,
                    start_col <= col,
                    col <= end_col || end_col <= start_col,
                    end_col <= start_col ==> col == start_col,
                    tileheight == self.tileheight,
                    tilewidth == self.tilewidth,
                    RenderContext::layer_grown(old(context), &at_row_start, render_layer, rows_before),
                    RenderContext::layer_grown(
                        &at_row_start,
                        context,
                        render_layer,
                        self.row_entries(data, dest, offset, frame, row as int, start_col as int, col as int),
                    ),
                decreases end_col - col,
            {
                let ghost before_cell = *context;
                self.draw_cell(layer, context, render_layer, dest, offset, row, col);
                proof {
                    RenderContext::lemma_layer_grown_concat(
                        &at_row_start,
                        &before_cell,
                        context,
                        render_layer,
                        self.row_entries(data, dest, offset, frame, row as int, start_col as int, col as int),
                        self.tile_entry(data, dest, offset, frame, row as int, col as int),
                    );
                }
                col = col + 1;
            }
            proof {
                RenderContext::lemma_layer_grown_concat(
                    old(context),
                    &at_row_start,
                    context,
                    render_layer,
                    rows_before,
                    self.row_entries(data, dest, offset, frame, row as int, start_col as int, col as int),
                );
                if end_col <= start_col {
                    assert(self.row_entries(data, dest, offset, frame, row as int, start_col as int, col as int) =~= self.row_entries(data, dest, offset, frame, row as int, start_col as int, end_col as int));
                }
            }
            row = row + 1;
        }
        if end_row <= start_row {
            assert(self.grid_entries(data, dest, offset, frame, start_row as int, row as int, start_col as int, end_col as int) =~= self.grid_entries(data, dest, offset, frame, start_row as int, end_row as int, start_col as int, end_col as int));
        }
    }

    /// Draws cell `(row, col)` of `layer`.
    fn draw_cell(&self, layer: &TileLayer, context: &mut RenderContext, render_layer: RenderLayer, dest: Rect<i32>, offset: Point<i32>, row: i32, col: i32)
        requires
            self.tile_layer_drawable(layer.spec_data(), dest, offset),
            self.row_window(dest, offset).0 <= row < self.row_window(dest, offset).1,
            self.col_window(dest, offset).0 <= col < self.col_window(dest, offset).1,
        ensures
            RenderContext::layer_grown(
                old(context),
                final(context),
                render_layer,
                self.tile_entry(layer.spec_data(), dest, offset, old(context).frame, row as int, col as int),
            ),
    {
        let ghost data = layer.spec_data();
        assert(self.window_cell_ok(data, dest, offset, row as int, col as int));
        let index = match layer.get(row as usize, col as usize) {
            Some(i) => *i,
            None => {
                assert(false);
                TileIndex(0)
            },
        };
        if index.0 == 0 {
            assert(context.layer_entries(render_layer) + Seq::empty() =~= context.layer_entries(render_layer));
            return;
        }
        let (tileset, tile_id) = self.tilesets.lookup(index);
        assert(*tileset == self.tileset_of(index.0)) by {
            let i = choose|i: int| self.tilesets.holds(i, index.0) && *tileset == self.tilesets.spec_tilesets()[i];
            let h = holder(&self.tilesets, index.0);
            assert(self.tilesets.holds(h, index.0));
            if i < h {
                assert(self.tilesets.spec_tilesets()[i].spec_firstgid() > index.0);
            }
            if h < i {
                assert(self.tilesets.spec_tilesets()[h].spec_firstgid() > index.0);
            }
        }
        let mut source = tileset.get_source_rect(tile_id);
        let tilewidth = self.tilewidth;
        let tileheight = self.tileheight;
        let mut pos_x = tilewidth * col + dest.x + offset.x;
        let mut pos_y = tileheight * row + dest.y + offset.y;

        // Trim what lies off the top or left of `dest`.
        if pos_x < dest.x {
            let extra = dest.left() - pos_x;
            source.x = source.x + extra;
            source.w = source.w - extra;
            pos_x = dest.x;
        }
        if pos_y < dest.y {
            let extra = dest.top() - pos_y;
            source.y = source.y + extra;
            source.h = source.h - extra;
            pos_y = dest.y;
        }
        if source.w <= 0 || source.h <= 0 {
            assert(context.layer_entries(render_layer) + Seq::empty() =~= context.layer_entries(render_layer));
            return;
        }

        // Trim what lies off the right or bottom.
        let pos_right = pos_x + tilewidth;
        if pos_right >= dest.right() {
            source.w = source.w - (pos_right - dest.right());
        }
        if source.w <= 0 {
            assert(context.layer_entries(render_layer) + Seq::empty() =~= context.layer_entries(render_layer));
            return;
        }
        let pos_bottom = pos_y + tileheight;
        if pos_bottom >= dest.bottom() {
            source.h = source.h - (pos_bottom - dest.bottom());
        }
        if source.h <= 0 {
            assert(context.layer_entries(render_layer) + Seq::empty() =~= context.layer_entries(render_layer));
            return;
        }

        let destination = Rect { x: pos_x, y: pos_y, w: source.w, h: source.h };
        let ghost before = *context;
        match tileset.get_animation(tile_id) {
            Some(animation) => {
                animation.blit(context, render_layer, destination, false);
            },
            None => {
                context.draw(tileset.sprite(), render_layer, destination, source);
            },
        }
        assert(context.layer_entries(render_layer) =~= before.layer_entries(render_layer) + self.tile_entry(data, dest, offset, before.frame, row as int, col as int));
    }
}

impl TileMap {
    pub closed spec fn spec_layers(&self) -> Seq<Layer> {
        self.layers@
    }

    /// The tilesets are in order and the player layer is recorded.
    pub closed spec fn wf(&self) -> bool {
        &&& self.tilesets.wf()
        &&& self.layers@.len() <= i32::MAX
        &&& match first_player_layer(self.layers@, self.layers@.len() as int) {
            Some(p) => self.player_layer == Some(p as i32),
            None => self.player_layer is None,
        }
    }

    /// Assembles a map. It needs a tileset, and at most one of its layers can be
    /// the player's.
    pub fn new(
        width: i32,
        height: i32,
        tilewidth: i32,
        tileheight: i32,
        backgroundcolor: Color,
        tilesets: TileSetList,
        layers: Vec<Layer>,
    ) -> (r: Result<TileMap, MapError>)
        requires
            tilesets.wf(),
            layers@.len() <= i32::MAX,
        ensures
            tilesets.spec_tilesets().len() == 0 ==> r == Err::<TileMap, MapError>(MapError::NoTileset),
            tilesets.spec_tilesets().len() > 0 && (exists|i: int, j: int|
                0 <= i < j < layers@.len() && is_player_layer(&layers@[i]) && is_player_layer(&layers@[j]))
                ==> r == Err::<TileMap, MapError>(MapError::TooManyPlayerLayers),
            tilesets.spec_tilesets().len() > 0 && !(exists|i: int, j: int|
                0 <= i < j < layers@.len() && is_player_layer(&layers@[i]) && is_player_layer(&layers@[j])) ==> (r matches Ok(m) && {
                &&& m.wf()
                &&& m.spec_width() == width
                &&& m.spec_height() == height
                &&& m.spec_tilewidth() == tilewidth
                &&& m.spec_tileheight() == tileheight
                &&& m.spec_background() == backgroundcolor
                &&& m.spec_tilesets() == tilesets
                &&& m.spec_layers() == layers@
            }),
    {
        if tilesets.len() == 0 {
            return Err(MapError::NoTileset);
        }
        let mut player_layer: Option<i32> = None;
        let mut k: usize = 0;
        while k < layers.len()
            invariant
                k <= layers@.len() <= i32::MAX,
                tilesets.spec_tilesets().len() > 0,
                tilesets.wf(),
                match first_player_layer(layers@, k as int) {
                    Some(p) => player_layer == Some(p as i32) && 0 <= p < k && is_player_layer(&layers@[p]),
                    None => player_layer is None && forall|i: int| 0 <= i < k ==> !is_player_layer(#[trigger] &layers@[i]),
                },
                forall|i: int, j: int|
                    0 <= i < j < k ==> !(is_player_layer(#[trigger] &layers@[i]) && is_player_layer(#[trigger] &layers@[j])),
            decreases layers@.len() - k,
        {
            let player = match &layers[k] {
                Layer::Tile(t) => t.player(),
                Layer::Image(_) => false,
            };
            if player {
                if player_layer.is_some() {
                    return Err(MapError::TooManyPlayerLayers);
                }
                player_layer = Some(k as i32);
            }
            k = k + 1;
        }
        Ok(TileMap { width, height, tilewidth, tileheight, backgroundcolor, tilesets, layers, player_layer })
    }

    /// The entry that drawing an image layer appends: the whole image, at `offset`.
    pub open spec fn image_entry(layer: &ImageLayer, offset: Point<i32>) -> SpriteBatchEntry {
        SpriteBatchEntry::Sprite {
            sprite: layer.spec_surface(),
            source: Rect { x: 0, y: 0, w: layer.spec_surface().area.w, h: layer.spec_surface().area.h },
            destination: Rect { x: offset.x, y: offset.y, w: layer.spec_surface().area.w, h: layer.spec_surface().area.h },
            reversed: false,
        }
    }

    /// Draws the whole image of `layer` with its top-left corner at `offset`.
    pub fn draw_image_layer(&self, layer: &ImageLayer, context: &mut RenderContext, render_layer: RenderLayer, _dest: Rect<i32>, offset: Point<i32>)
        ensures
            RenderContext::appended(old(context), final(context), render_layer, TileMap::image_entry(layer, offset)),
    {
        let dest = Rect { x: offset.x, y: offset.y, w: layer.surface.area.w, h: layer.surface.area.h };
        let source = Rect { x: 0, y: 0, w: layer.surface.area.w, h: layer.surface.area.h };
        context.draw(layer.surface, render_layer, dest, source);
    }

    /// Whether `layer` can be drawn into `dest` moved by `offset`.
    pub open spec fn layer_drawable(&self, layer: &Layer, dest: Rect<i32>, offset: Point<i32>) -> bool {
        match layer {
            Layer::Tile(t) => self.tile_layer_drawable(t.spec_data(), dest, offset),
            Layer::Image(_) => true,
        }
    }

    /// What drawing `layer` appends.
    pub open spec fn layer_entries(&self, layer: &Layer, dest: Rect<i32>, offset: Point<i32>, frame: u64) -> Seq<SpriteBatchEntry> {
        match layer {
            Layer::Tile(t) => self.grid_entries(
                t.spec_data(),
                dest,
                offset,
                frame,
                self.row_window(dest, offset).0,
                self.row_window(dest, offset).1,
                self.col_window(dest, offset).0,
                self.col_window(dest, offset).1,
            ),
            Layer::Image(i) => seq![TileMap::image_entry(i, offset)],
        }
    }

    /// What drawing layers `from..to` appends, in order.
    pub open spec fn layers_entries(&self, from: int, to: int, dest: Rect<i32>, offset: Point<i32>, frame: u64) -> Seq<SpriteBatchEntry>
        decreases to - from,
    {
        if to <= from {
            Seq::empty()
        } else {
            self.layers_entries(from, to - 1, dest, offset, frame) + self.layer_entries(&self.spec_layers()[to - 1], dest, offset, frame)
        }
    }

    pub fn draw_layer(&self, layer: &Layer, context: &mut RenderContext, render_layer: RenderLayer, dest: Rect<i32>, offset: Point<i32>)
        requires
            self.layer_drawable(layer, dest, offset),
        ensures
            RenderContext::layer_grown(old(context), final(context), render_layer, self.layer_entries(layer, dest, offset, old(context).frame)),
    {
        match layer {
            Layer::Image(layer) => {
                let ghost before = *context;
                self.draw_image_layer(layer, context, render_layer, dest, offset);
                assert(context.layer_entries(render_layer) =~= before.layer_entries(render_layer) + seq![TileMap::image_entry(layer, offset)]);
            },
            Layer::Tile(layer) => self.draw_tile_layer(layer, context, render_layer, dest, offset),
        }
    }

    /// Draws layers `from..to` in order, stopping after a player layer when
    /// `stop_at_player`; returns where it stopped.
    fn draw_layers(&self, from: usize, context: &mut RenderContext, render_layer: RenderLayer, dest: Rect<i32>, offset: Point<i32>, stop_at_player: bool) -> (r: usize)
        requires
            from <= self.spec_layers().len(),
            forall|i: int| from <= i < self.spec_layers().len() ==> self.layer_drawable(#[trigger] &self.spec_layers()[i], dest, offset),
        ensures
            from <= r <= self.spec_layers().len(),
            stop_at_player ==> (r == self.spec_layers().len() || (r > from && is_player_layer(&self.spec_layers()[r - 1]))),
            stop_at_player ==> forall|i: int| from <= i < r - 1 ==> !is_player_layer(#[trigger] &self.spec_layers()[i]),
            !stop_at_player ==> r == self.spec_layers().len(),
            RenderContext::layer_grown(old(context), final(context), render_layer, self.layers_entries(from as int, r as int, dest, offset, old(context).frame)),
    {
        assert(context.layer_entries(render_layer) + Seq::empty() =~= context.layer_entries(render_layer));
        let mut k = from;
        while k < self.layers.len()
            invariant
                from <= k <= self.layers@.len(),
                forall|i: int| from <= i < self.spec_layers().len() ==> self.layer_drawable(#[trigger] &self.spec_layers()[i], dest, offset),
                stop_at_player ==> forall|i: int| from <= i < k ==> !is_player_layer(#[trigger] &self.spec_layers()[i]),
                context.frame == old(context).frame,
                RenderContext::layer_grown(old(context), context, render_layer, self.layers_entries(from as int, k as int, dest, offset, old(context).frame)),
            decreases self.layers@.len() - k,
        {
            let ghost before = *context;
            let layer = &self.layers[k];
            assert(self.layer_drawable(&self.spec_layers()[k as int], dest, offset));
            self.draw_layer(layer, context, render_layer, dest, offset);
            proof {
                RenderContext::lemma_layer_grown_concat(old(context), &before, context, render_layer,
                    self.layers_entries(from as int, k as int, dest, offset, old(context).frame),
                    self.layer_entries(&self.spec_layers()[k as int], dest, offset, old(context).frame));
            }
            k = k + 1;
            let player = match layer {
                Layer::Tile(t) => t.player(),
                Layer::Image(_) => false,
            };
            if stop_at_player && player {
                return k;
            }
        }
        k
    }

    /// The position just after the first player layer, or the number of layers.
    pub open spec fn background_end(&self) -> int {
        match first_player_layer(self.spec_layers(), self.spec_layers().len() as int) {
            Some(p) => p + 1,
            None => self.spec_layers().len() as int,
        }
    }

    proof fn lemma_first_player_layer(layers: Seq<Layer>, n: int)
        requires
            0 <= n <= layers.len(),
        ensures
            match first_player_layer(layers, n) {
                Some(p) => 0 <= p < n && is_player_layer(&layers[p]) && forall|i: int| 0 <= i < p ==> !is_player_layer(#[trigger] &layers[i]),
                None => forall|i: int| 0 <= i < n ==> !is_player_layer(#[trigger] &layers[i]),
            },
        decreases n,
    {
        if n > 0 {
            TileMap::lemma_first_player_layer(layers, n - 1);
        }
    }

    /// Fills `dest` with the background colour, then draws the layers from the
    /// bottom up to and including the player's.
    pub fn draw_background(&self, context: &mut RenderContext, render_layer: RenderLayer, dest: Rect<i32>, offset: Point<i32>)
        requires
            self.wf(),
            forall|i: int| 0 <= i < self.spec_layers().len() ==> self.layer_drawable(#[trigger] &self.spec_layers()[i], dest, offset),
        ensures
            RenderContext::layer_grown(
                old(context),
                final(context),
                render_layer,
                seq![SpriteBatchEntry::FillRect { destination: dest, color: self.spec_background() }]
                    + self.layers_entries(0, self.background_end(), dest, offset, old(context).frame),
            ),
    {
        let ghost first = *context;
        context.fill_rect(dest, render_layer, self.backgroundcolor);
        let ghost entry = SpriteBatchEntry::FillRect { destination: dest, color: self.spec_background() };
        assert(context.layer_entries(render_layer) =~= first.layer_entries(render_layer) + seq![entry]);
        let ghost mid = *context;
        let end = self.draw_layers(0, context, render_layer, dest, offset, true);
        proof {
            TileMap::lemma_first_player_layer(self.spec_layers(), self.spec_layers().len() as int);
            RenderContext::lemma_layer_grown_concat(&first, &mid, context, render_layer, seq![entry],
                self.layers_entries(0, end as int, dest, offset, first.frame));
            match first_player_layer(self.spec_layers(), self.spec_layers().len() as int) {
                Some(p) => {
                    if end < self.spec_layers().len() {
                        assert(is_player_layer(&self.spec_layers()[end - 1]));
                        if end - 1 > p {
                            assert(!is_player_layer(&self.spec_layers()[p]));
                        }
                    } else {
                        if p < end - 1 {
                            assert(!is_player_layer(&self.spec_layers()[p]));
                        }
                        if p > end - 1 {
                            assert(false);
                        }
                    }
                },
                None => {
                    if end < self.spec_layers().len() {
                        assert(!is_player_layer(&self.spec_layers()[end - 1]));
                    }
                },
            }
        }
    }

    /// Draws the layers above the player's, if the map has a player layer.
    pub fn draw_foreground(&self, context: &mut RenderContext, render_layer: RenderLayer, dest: Rect<i32>, offset: Point<i32>)
        requires
            self.wf(),
            forall|i: int| 0 <= i < self.spec_layers().len() ==> self.layer_drawable(#[trigger] &self.spec_layers()[i], dest, offset),
        ensures
            self.spec_player_layer() is None ==> *final(context) == *old(context),
            self.spec_player_layer() is Some ==> RenderContext::layer_grown(
                old(context),
                final(context),
                render_layer,
                self.layers_entries(self.background_end(), self.spec_layers().len() as int, dest, offset, old(context).frame),
            ),
    {
        if self.player_layer.is_none() {
            return;
        }
        proof {
            TileMap::lemma_first_player_layer(self.spec_layers(), self.spec_layers().len() as int);
        }
        let p = self.player_layer.unwrap() as usize;
        self.draw_layers(p + 1, context, render_layer, dest, offset, false);
    }

    /// The animation of map-wide tile `tile_gid`, if it has one.
    pub fn get_animation(&self, tile_gid: TileIndex) -> (r: Option<&Animation>)
        requires
            self.wf(),
            exists|i: int|
                0 <= i < self.spec_tilesets().spec_tilesets().len() && (#[trigger] self.spec_tilesets().spec_tilesets()[i]).spec_firstgid() <= tile_gid.0,
        ensures
            match self.tileset_of(tile_gid.0).spec_animation((tile_gid.0 - self.tileset_of(tile_gid.0).spec_firstgid()) as usize) {
                Some(a) => r is Some && *r->Some_0 == a,
                None => r is None,
            },
    {
        let (tileset, tile_id) = self.tilesets.lookup(tile_gid);
        assert(*tileset == self.tileset_of(tile_gid.0)) by {
            let i = choose|i: int| self.tilesets.holds(i, tile_gid.0) && *tileset == self.tilesets.spec_tilesets()[i];
            let h = holder(&self.tilesets, tile_gid.0);
            assert(self.tilesets.holds(h, tile_gid.0));
            if i < h {
                assert(self.tilesets.spec_tilesets()[i].spec_firstgid() > tile_gid.0);
            }
            if h < i {
                assert(self.tilesets.spec_tilesets()[h].spec_firstgid() > tile_gid.0);
            }
        }
        tileset.get_animation(tile_id)
    }
}

} // verus!
