use vstd::prelude::*;

use crate::geometry::Rect;
use crate::sprite::{Animation, Sprite};

verus! {

/// The index of a tile across all tilesets of a map.
#[derive(Debug, Clone, Copy, PartialEq, Eq, Hash, Structural)]
pub struct TileIndex(pub usize);

/// The index of a tile within its own tileset.
#[derive(Debug, Clone, Copy, PartialEq, Eq, Hash, Structural)]
pub struct LocalTileIndex(pub usize);

impl From<usize> for TileIndex {
    fn from(value: usize) -> (r: TileIndex) {
        TileIndex(value)
    }
}

impl vstd::std_specs::convert::FromSpecImpl<usize> for TileIndex {
    open spec fn obeys_from_spec() -> bool {
        true
    }

    open spec fn from_spec(v: usize) -> TileIndex {
        TileIndex(v)
    }
}

impl From<TileIndex> for usize {
    fn from(value: TileIndex) -> (r: usize) {
        value.0
    }
}

impl vstd::std_specs::convert::FromSpecImpl<TileIndex> for usize {
    open spec fn obeys_from_spec() -> bool {
        true
    }

    open spec fn from_spec(v: TileIndex) -> usize {
        v.0
    }
}

impl From<usize> for LocalTileIndex {
    fn from(value: usize) -> (r: LocalTileIndex) {
        LocalTileIndex(value)
    }
}

impl vstd::std_specs::convert::FromSpecImpl<usize> for LocalTileIndex {
    open spec fn obeys_from_spec() -> bool {
        true
    }

    open spec fn from_spec(v: usize) -> LocalTileIndex {
        LocalTileIndex(v)
    }
}

impl From<LocalTileIndex> for usize {
    fn from(value: LocalTileIndex) -> (r: usize) {
        value.0
    }
}

impl vstd::std_specs::convert::FromSpecImpl<LocalTileIndex> for usize {
    open spec fn obeys_from_spec() -> bool {
        true
    }

    open spec fn from_spec(v: LocalTileIndex) -> usize {
        v.0
    }
}

/// Properties of one tile of a tileset.
pub struct TileProperties {
    pub solid: bool,
    pub animation: Option<String>,
}

/// A grid of equally sized tiles cut from one sprite, numbered row by row; its
/// tiles are numbered from `firstgid` across the map.
pub struct TileSet {
    name: String,
    firstgid: TileIndex,
    pub tilewidth: i32,
    pub tileheight: i32,
    tilecount: i32,
    columns: i32,
    pub sprite: Sprite,
    animations: Vec<Option<Animation>>,
    tile_properties: Vec<Option<TileProperties>>,
}

impl TileSet {
    pub closed spec fn spec_firstgid(&self) -> usize {
        self.firstgid.0
    }

    pub closed spec fn spec_tilewidth(&self) -> i32 {
        self.tilewidth
    }

    pub closed spec fn spec_tileheight(&self) -> i32 {
        self.tileheight
    }

    pub closed spec fn spec_sprite(&self) -> Sprite {
        self.sprite
    }

    pub closed spec fn spec_tilecount(&self) -> i32 {
        self.tilecount
    }

    pub closed spec fn spec_columns(&self) -> i32 {
        self.columns
    }

    /// The animation of tile `id`, if it has one.
    pub closed spec fn spec_animation(&self, id: usize) -> Option<Animation> {
        if id < self.animations@.len() {
            self.animations@[id as int]
        } else {
            None
        }
    }

    /// Every animation can be drawn: it is well formed and has frames.
    pub closed spec fn animations_usable(&self) -> bool {
        forall|i: int|
            0 <= i < self.animations@.len() && (#[trigger] self.animations@[i]) is Some ==> self.animations@[i]->Some_0.wf()
                && self.animations@[i]->Some_0.spec_frames() > 0
    }

    /// The tiles that have properties, and which.
    pub closed spec fn spec_properties(&self) -> Map<usize, bool> {
        Map::new(
            |i: usize| i < self.tile_properties@.len() && self.tile_properties@[i as int] is Some,
            |i: usize| self.tile_properties@[i as int]->Some_0.solid,
        )
    }

    /// The area within the sprite of tile `index`.
    pub open spec fn source_rect(&self, index: int) -> Rect<i32> {
        Rect {
            x: (self.spec_tilewidth() * (index % self.spec_columns() as int)) as i32,
            y: (self.spec_tileheight() * (index / self.spec_columns() as int)) as i32,
            w: self.spec_tilewidth(),
            h: self.spec_tileheight(),
        }
    }

    /// Whether tile `index` exists and its area is representable.
    pub open spec fn source_rect_fits(&self, index: int) -> bool {
        &&& 0 <= index <= self.spec_tilecount()
        &&& self.spec_columns() > 0
        &&& i32::MIN <= self.spec_tilewidth() * (index % self.spec_columns() as int) <= i32::MAX
        &&& i32::MIN <= self.spec_tileheight() * (index / self.spec_columns() as int) <= i32::MAX
    }

    /// A tileset without tile properties.
    pub fn new(
        name: &str,
        firstgid: TileIndex,
        tilewidth: i32,
        tileheight: i32,
        tilecount: i32,
        columns: i32,
        sprite: Sprite,
    ) -> (r: TileSet)
        ensures
            r.spec_firstgid() == firstgid.0,
            r.spec_tilewidth() == tilewidth,
            r.spec_tileheight() == tileheight,
            r.spec_tilecount() == tilecount,
            r.spec_columns() == columns,
            r.spec_sprite() == sprite,
            r.spec_properties() == Map::<usize, bool>::empty(),
            r.animations_usable(),
            forall|id: usize| #[trigger] r.spec_animation(id) is None,
    {
        let r = TileSet {
            name: name.to_owned(),
            firstgid,
            tilewidth,
            tileheight,
            tilecount,
            columns,
            sprite,
            animations: Vec::new(),
            tile_properties: Vec::new(),
        };
        assert(r.spec_properties() =~= Map::<usize, bool>::empty());
        r
    }

    /// The sprite that the tiles are cut from.
    pub fn sprite(&self) -> (r: Sprite)
        ensures
            r == self.spec_sprite(),
    {
        self.sprite
    }

    /// The index within this tileset of the map-wide tile `tile_gid`, or `None`
    /// for a tile numbered before this tileset's first.
    pub fn get_local_tile_index(&self, tile_gid: TileIndex) -> (r: Option<LocalTileIndex>)
        ensures
            tile_gid.0 >= self.spec_firstgid() ==> r == Some(LocalTileIndex((tile_gid.0 - self.spec_firstgid()) as usize)),
            tile_gid.0 < self.spec_firstgid() ==> r is None,
    {
        let tile_gid: usize = tile_gid.into();
        let firstgid: usize = self.firstgid.into();
        if tile_gid >= firstgid {
            Some((tile_gid - firstgid).into())
        } else {
            None
        }
    }

    /// The map-wide index of this tileset's tile `tile_id`.
    pub fn get_global_tile_index(&self, tile_id: LocalTileIndex) -> (r: TileIndex)
        requires
            self.spec_firstgid() + tile_id.0 <= usize::MAX,
        ensures
            r == TileIndex((self.spec_firstgid() + tile_id.0) as usize),
    {
        let tile_id: usize = tile_id.into();
        let firstgid: usize = self.firstgid.into();
        (firstgid + tile_id).into()
    }

    /// Sorting by this key puts tilesets with later first indices first.
    pub fn gid_sort_key(&self) -> (r: i32)
        requires
            self.spec_firstgid() <= i32::MAX,
        ensures
            r == -self.spec_firstgid(),
    {
        let key: usize = self.firstgid.into();
        let key = key as i32;
        -key
    }

    /// The area within the sprite of tile `index`.
    pub fn get_source_rect(&self, index: LocalTileIndex) -> (r: Rect<i32>)
        requires
            self.source_rect_fits(index.0 as int),
        ensures
            r == self.source_rect(index.0 as int),
    {
        let index = index.0 as i32;
        let row = index / self.columns;
        let col = index % self.columns;
        let x = self.tilewidth * col;
        let y = self.tileheight * row;
        Rect { x, y, w: self.tilewidth, h: self.tileheight }
    }

    /// Whether tile `index` exists and its area is representable.
    pub fn tile_area_fits(&self, index: usize) -> (r: bool)
        ensures
            r == self.source_rect_fits(index as int),
    {
        if self.tilecount < 0 || index > self.tilecount as usize || self.columns <= 0 {
            return false;
        }
        let i = index as i64;
        let columns = self.columns as i64;
        let m = i % columns;
        let q = i / columns;
        proof {
            vstd::arithmetic::div_mod::lemma_div_is_ordered_by_denominator(i as int, 1, columns as int);
            vstd::arithmetic::div_mod::lemma_div_pos_is_pos(i as int, columns as int);
            assert(0 <= q <= i);
            assert(0 <= m < columns);
        }
        let tw = self.tilewidth as i64;
        let th = self.tileheight as i64;
        assert(-0x8000_0000_0000_0000 < tw * m < 0x8000_0000_0000_0000) by (nonlinear_arith)
            requires
                -0x8000_0000 <= tw < 0x8000_0000,
                0 <= m < 0x8000_0000,
        ;
        assert(-0x8000_0000_0000_0000 < th * q < 0x8000_0000_0000_0000) by (nonlinear_arith)
            requires
                -0x8000_0000 <= th < 0x8000_0000,
                0 <= q < 0x8000_0000,
        ;
        let x = tw * m;
        let y = th * q;
        i32::MIN as i64 <= x && x <= i32::MAX as i64 && i32::MIN as i64 <= y && y <= i32::MAX as i64
    }

    /// Records the properties of tile `tile_id`, replacing any it had.
    pub fn set_tile_properties(&mut self, tile_id: LocalTileIndex, properties: TileProperties)
        requires
            tile_id.0 < usize::MAX,
        ensures
            final(self).spec_properties() == old(self).spec_properties().insert(tile_id.0, properties.solid),
            forall|id: usize| #[trigger] final(self).spec_animation(id) == old(self).spec_animation(id),
            old(self).animations_usable() ==> final(self).animations_usable(),
            final(self).spec_firstgid() == old(self).spec_firstgid(),
            final(self).spec_tilewidth() == old(self).spec_tilewidth(),
            final(self).spec_tileheight() == old(self).spec_tileheight(),
            final(self).spec_tilecount() == old(self).spec_tilecount(),
            final(self).spec_columns() == old(self).spec_columns(),
            final(self).spec_sprite() == old(self).spec_sprite(),
    {
        let ghost before = self.tile_properties@;
        while self.tile_properties.len() <= tile_id.0
            invariant
                tile_id.0 < usize::MAX,
                self.tile_properties@.len() >= before.len(),
                forall|i: int| 0 <= i < before.len() ==> self.tile_properties@[i] == before[i],
                forall|i: int| before.len() <= i < self.tile_properties@.len() ==> self.tile_properties@[i] is None,
                self.firstgid == old(self).firstgid,
                self.tilewidth == old(self).tilewidth,
                self.tileheight == old(self).tileheight,
                self.tilecount == old(self).tilecount,
                self.columns == old(self).columns,
                self.sprite == old(self).sprite,
                self.animations == old(self).animations,
            decreases tile_id.0 + 1 - self.tile_properties@.len(),
        {
            self.tile_properties.push(None);
        }
        let ghost mid = self.tile_properties@;
        let solid = properties.solid;
        self.tile_properties.set(tile_id.0, Some(properties));
        assert(self.spec_properties() =~= old(self).spec_properties().insert(tile_id.0, solid)) by {
            assert forall|i: usize| #[trigger] self.spec_properties().dom().contains(i) == old(self).spec_properties().insert(tile_id.0, solid).dom().contains(i) by {
                if i != tile_id.0 && i < before.len() {
                    assert(self.tile_properties@[i as int] == before[i as int]);
                }
            }
            assert forall|i: usize| #[trigger] self.spec_properties().dom().contains(i) implies self.spec_properties()[i] == old(self).spec_properties().insert(tile_id.0, solid)[i] by {
                if i != tile_id.0 {
                    assert(self.tile_properties@[i as int] == before[i as int]);
                }
            }
        }
    }

    /// Gives tile `tile_id` an animation, replacing any it had.
    pub fn set_animation(&mut self, tile_id: LocalTileIndex, animation: Animation)
        requires
            tile_id.0 < usize::MAX,
            old(self).animations_usable(),
            animation.wf(),
            animation.spec_frames() > 0,
        ensures
            final(self).animations_usable(),
            final(self).spec_animation(tile_id.0) == Some(animation),
            forall|id: usize| id != tile_id.0 ==> #[trigger] final(self).spec_animation(id) == old(self).spec_animation(id),
            final(self).spec_properties() == old(self).spec_properties(),
            final(self).spec_firstgid() == old(self).spec_firstgid(),
            final(self).spec_tilewidth() == old(self).spec_tilewidth(),
            final(self).spec_tileheight() == old(self).spec_tileheight(),
            final(self).spec_tilecount() == old(self).spec_tilecount(),
            final(self).spec_columns() == old(self).spec_columns(),
            final(self).spec_sprite() == old(self).spec_sprite(),
    {
        let ghost before = self.animations@;
        while self.animations.len() <= tile_id.0
            invariant
                tile_id.0 < usize::MAX,
                self.animations@.len() >= before.len(),
                forall|i: int| 0 <= i < before.len() ==> self.animations@[i] == before[i],
                forall|i: int| before.len() <= i < self.animations@.len() ==> self.animations@[i] is None,
                self.firstgid == old(self).firstgid,
                self.tilewidth == old(self).tilewidth,
                self.tileheight == old(self).tileheight,
                self.tilecount == old(self).tilecount,
                self.columns == old(self).columns,
                self.sprite == old(self).sprite,
                self.tile_properties == old(self).tile_properties,
            decreases tile_id.0 + 1 - self.animations@.len(),
        {
            self.animations.push(None);
        }
        self.animations.set(tile_id.0, Some(animation));
        assert forall|id: usize| id != tile_id.0 implies #[trigger] self.spec_animation(id) == old(self).spec_animation(id) by {
            if id < before.len() {
                assert(self.animations@[id as int] == before[id as int]);
            }
        }
        assert forall|i: int|
            0 <= i < self.animations@.len() && (#[trigger] self.animations@[i]) is Some implies self.animations@[i]->Some_0.wf()
                && self.animations@[i]->Some_0.spec_frames() > 0 by {
            if i != tile_id.0 {
                assert(self.animations@[i] == before[i]);
            }
        }
    }

    /// The animation of tile `tile_id`, if it has one.
    pub fn get_animation(&self, tile_id: LocalTileIndex) -> (r: Option<&Animation>)
        requires
            self.animations_usable(),
        ensures
            match self.spec_animation(tile_id.0) {
                Some(a) => r is Some && *r->Some_0 == a && a.wf() && a.spec_frames() > 0,
                None => r is None,
            },
    {
        if tile_id.0 < self.animations.len() {
            match &self.animations[tile_id.0] {
                Some(a) => Some(a),
                None => None,
            }
        } else {
            None
        }
    }

    /// The properties of tile `tile_id`, if it has any.
    pub fn get_tile_properties(&self, tile_id: LocalTileIndex) -> (r: Option<&TileProperties>)
        ensures
            r is Some == self.spec_properties().dom().contains(tile_id.0),
            r is Some ==> r->Some_0.solid == self.spec_properties()[tile_id.0],
    {
        if tile_id.0 < self.tile_properties.len() {
            match &self.tile_properties[tile_id.0] {
                Some(p) => Some(p),
                None => None,
            }
        } else {
            None
        }
    }
}

/// The tilesets of a map, those with later first indices first.
pub struct TileSetList {
    tilesets: Vec<TileSet>,
}

impl TileSetList {
    pub closed spec fn spec_tilesets(&self) -> Seq<TileSet> {
        self.tilesets@
    }

    /// Ordered by first index, latest first; every first index fits the sort key
    /// and every animation can be drawn.
    pub closed spec fn wf(&self) -> bool {
        &&& forall|i: int, j: int|
            0 <= i < j < self.tilesets@.len() ==> (#[trigger] self.tilesets@[i]).spec_firstgid() >= (#[trigger] self.tilesets@[j]).spec_firstgid()
        &&& forall|i: int| 0 <= i < self.tilesets@.len() ==> (#[trigger] self.tilesets@[i]).spec_firstgid() <= i32::MAX
        &&& forall|i: int| 0 <= i < self.tilesets@.len() ==> (#[trigger] self.tilesets@[i]).animations_usable()
    }

    /// Whether tileset `i` is the one that holds map-wide tile `gid`: the first,
    /// in order, whose first index is not after it.
    pub open spec fn holds(&self, i: int, gid: usize) -> bool {
        &&& 0 <= i < self.spec_tilesets().len()
        &&& self.spec_tilesets()[i].spec_firstgid() <= gid
        &&& forall|j: int| 0 <= j < i ==> (#[trigger] self.spec_tilesets()[j]).spec_firstgid() > gid
    }

    pub fn new() -> (r: TileSetList)
        ensures
            r.wf(),
            r.spec_tilesets().len() == 0,
    {
        TileSetList { tilesets: Vec::new() }
    }

    pub fn len(&self) -> (r: usize)
        ensures
            r == self.spec_tilesets().len(),
    {
        self.tilesets.len()
    }

    /// Adds a tileset, after those whose first index is not before its own.
    pub fn add(&mut self, tileset: TileSet)
        requires
            old(self).wf(),
            tileset.spec_firstgid() <= i32::MAX,
            tileset.animations_usable(),
        ensures
            final(self).wf(),
            exists|p: int|
                0 <= p <= old(self).spec_tilesets().len() && final(self).spec_tilesets() == old(self).spec_tilesets().insert(
                    p,
                    tileset,
                ),
    {
        let mut p: usize = 0;
        while p < self.tilesets.len() && self.tilesets[p].gid_sort_key() <= tileset.gid_sort_key()
            invariant
                self.wf(),
                self.tilesets@ == old(self).tilesets@,
                p <= self.tilesets@.len(),
                tileset.spec_firstgid() <= i32::MAX,
                forall|j: int| 0 <= j < p ==> (#[trigger] self.tilesets@[j]).spec_firstgid() >= tileset.spec_firstgid(),
            decreases self.tilesets@.len() - p,
        {
            p = p + 1;
        }
        let ghost before = self.tilesets@;
        let ghost t = tileset;
        self.tilesets.insert(p, tileset);
        assert forall|i: int, j: int|
            0 <= i < j < self.tilesets@.len() implies (#[trigger] self.tilesets@[i]).spec_firstgid() >= (#[trigger] self.tilesets@[j]).spec_firstgid() by {
            if p < before.len() {
                assert(before[p as int].spec_firstgid() < t.spec_firstgid());
            }
            if i < p && j > p {
                assert(self.tilesets@[j] == before[j - 1]);
            }
            if i > p {
                assert(self.tilesets@[i] == before[i - 1]);
                assert(self.tilesets@[j] == before[j - 1]);
            }
            if i == p && j > p {
                assert(self.tilesets@[j] == before[j - 1]);
                assert(before[p as int].spec_firstgid() >= before[j - 1].spec_firstgid() || j - 1 == p);
            }
        }
        assert(self.tilesets@ == before.insert(p as int, t));
        assert(self.spec_tilesets() == old(self).spec_tilesets().insert(p as int, t));
    }

    /// The tileset that holds map-wide tile `tile_gid`, and the tile's index in it.
    pub fn lookup(&self, tile_gid: TileIndex) -> (r: (&TileSet, LocalTileIndex))
        requires
            self.wf(),
            exists|i: int| 0 <= i < self.spec_tilesets().len() && (#[trigger] self.spec_tilesets()[i]).spec_firstgid() <= tile_gid.0,
        ensures
            exists|i: int| self.holds(i, tile_gid.0) && *r.0 == self.spec_tilesets()[i],
            r.1 == LocalTileIndex((tile_gid.0 - r.0.spec_firstgid()) as usize),
            r.0.animations_usable(),
    {
        let mut k: usize = 0;
        while k < self.tilesets.len()
            invariant
                self.wf(),
                k <= self.tilesets@.len(),
                exists|i: int| 0 <= i < self.spec_tilesets().len() && (#[trigger] self.spec_tilesets()[i]).spec_firstgid() <= tile_gid.0,
                forall|j: int| 0 <= j < k ==> (#[trigger] self.spec_tilesets()[j]).spec_firstgid() > tile_gid.0,
            decreases self.tilesets@.len() - k,
        {
            let tileset = &self.tilesets[k];
            if let Some(tile_id) = tileset.get_local_tile_index(tile_gid) {
                assert(self.holds(k as int, tile_gid.0));
                return (tileset, tile_id);
            }
            k = k + 1;
        }
        assert(false);
        (&self.tilesets[0], LocalTileIndex(0))
    }
}

} // verus!
