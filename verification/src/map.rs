//! The tile map: owns tile-layer data, pixel/tile coordinate conversions, a
//! camera viewport, and a per-layer entity-occupancy index keyed by flattened
//! tile coordinate; provides placement, removal and blocked-tile queries.
//!
//! Raw layers come in triples per logical layer: base tile, decoration, and
//! collision; logical layer `L` maps to raw layers `3L`, `3L + 1`, `3L + 2`.

use vstd::prelude::*;

use std::collections::HashMap;

use crate::common::{Point, Rect};
use crate::entity::Entity;
use crate::util::{clamp, spec_clamp};

verus! {

broadcast use vstd::std_specs::hash::group_hash_axioms;

/// Largest accepted map edge, in tiles.
pub const MAX_MAP_DIM: u32 = 32768;

/// Largest accepted tile edge, in pixels.
pub const MAX_TILE_DIM: u32 = 65536;

/// Largest accepted magnitude for the map origin and the camera position.
pub const MAX_ORIGIN: i64 = 0x100_0000_0000;

/// The tileset name that marks the blocking (impassable) tile: the bytes of
/// `collision_graphic`.
pub open spec fn collision_name() -> Seq<u8> {
    seq![
        99u8,
        111u8,
        108u8,
        108u8,
        105u8,
        115u8,
        105u8,
        111u8,
        110u8,
        95u8,
        103u8,
        114u8,
        97u8,
        112u8,
        104u8,
        105u8,
        99u8,
    ]
}

/// The bytes of `collision_graphic`, for run-time comparison.
fn collision_name_bytes() -> (r: Vec<u8>)
    ensures
        r@ == collision_name(),
{
    let v: Vec<u8> = vec![
        99u8,
        111u8,
        108u8,
        108u8,
        105u8,
        115u8,
        105u8,
        111u8,
        110u8,
        95u8,
        103u8,
        114u8,
        97u8,
        112u8,
        104u8,
        105u8,
        99u8,
    ];
    proof {
        assert(v@ =~= collision_name());
    }
    v
}

/// Why a map operation was refused.
#[derive(Clone, Copy, PartialEq, Eq, Structural, Debug)]
pub enum MapError {
    /// The destination tile already holds an entity.
    Occupied,
    /// No entity with the given identity at its recorded slot.
    NotFound,
    /// A tile coordinate outside the map, or an ill-formed footprint.
    OutOfBounds,
    /// An entity with this id is already stored.
    IdInUse,
}

/// One raw tile layer: a row-major grid of tile ids, `tiles[y][x]`, 0 = empty.
#[derive(Debug)]
pub struct TileLayer {
    pub tiles: Vec<Vec<u32>>,
}

/// What the core reads of one tileset of a parsed map.
#[derive(Debug)]
pub struct TilesetData {
    /// The gid of the first tile of this tileset.
    pub first_gid: u32,
    /// The tileset's name, as bytes.
    pub name: Vec<u8>,
    pub tile_width: u32,
    pub tile_height: u32,
    /// Pixel size of the tileset's (first) image; 0 when it has none.
    pub image_width: i64,
    pub image_height: i64,
}

/// What the core reads of a parsed tile map: dimensions in tiles, the raw
/// layers, and the tilesets.
#[derive(Debug)]
pub struct TileMapData {
    /// Map width in tiles.
    pub width: u32,
    /// Map height in tiles.
    pub height: u32,
    pub layers: Vec<TileLayer>,
    pub tilesets: Vec<TilesetData>,
}

/// The grid of a layer, seen mathematically: `grid_of(l)[y][x]`.
pub open spec fn grid_of(l: TileLayer) -> Seq<Seq<u32>> {
    l.tiles@.map_values(|row: Vec<u32>| row@)
}

/// All layer grids, seen mathematically.
pub open spec fn layer_views(layers: Seq<TileLayer>) -> Seq<Seq<Seq<u32>>> {
    layers.map_values(|l: TileLayer| grid_of(l))
}

/// The occupancy maps of all layers, seen mathematically.
pub open spec fn occ_views(entities: Seq<HashMap<usize, Entity>>) -> Seq<Map<usize, Entity>> {
    entities.map_values(|m: HashMap<usize, Entity>| m@)
}

/// One cell of one raw layer overwritten.
pub open spec fn cell_write(
    layers: Seq<Seq<Seq<u32>>>,
    l: int,
    x: int,
    y: int,
    v: u32,
) -> Seq<Seq<Seq<u32>>> {
    layers.update(l, layers[l].update(y, layers[l][y].update(x, v)))
}

/// What `write_tile` does to the raw layers of logical layer `layer`: the
/// base cell is overwritten with `tile`; the decoration cell with `detail`
/// when one is given; and, when `collision` is set and a blocking tile is
/// configured, the collision cell with the blocking tile id.  Nothing can
/// clear a blocking tile through this operation.
pub open spec fn spec_write_tile(
    layers: Seq<Seq<Seq<u32>>>,
    layer: int,
    x: int,
    y: int,
    tile: u32,
    detail: Option<u32>,
    collision: bool,
    blocking: Option<u32>,
) -> Seq<Seq<Seq<u32>>> {
    let l0 = cell_write(layers, 3 * layer, x, y, tile);
    let l1 = match detail {
        Some(d) => cell_write(l0, 3 * layer + 1, x, y, d),
        None => l0,
    };
    if collision {
        match blocking {
            Some(b) => cell_write(l1, 3 * layer + 2, x, y, b),
            None => l1,
        }
    } else {
        l1
    }
}

/// A draw instruction for the renderer: a source rectangle in tileset-image
/// pixels and a destination pixel position relative to the camera.
#[derive(Clone, Copy, PartialEq, Eq, Structural, Debug)]
pub struct DrawParam {
    pub src: Rect,
    pub dest: Point,
}

/// A grid holds `height` rows of `width` tile ids each.
pub open spec fn grid_wf(g: Seq<Seq<u32>>, width: int, height: int) -> bool {
    &&& g.len() == height
    &&& forall|y: int| 0 <= y < height ==> (#[trigger] g[y]).len() == width
}

/// A tileset the map can be built on: positive, bounded tile dimensions.
pub open spec fn tileset_wf(t: TilesetData) -> bool {
    &&& 0 < t.tile_width <= MAX_TILE_DIM
    &&& 0 < t.tile_height <= MAX_TILE_DIM
}

impl TileMapData {
    /// The shape every map accepted by `TileMap::new` must have: positive,
    /// bounded dimensions, every layer a full `width` by `height` grid, and
    /// every tileset with positive, bounded tile dimensions.
    pub open spec fn valid(&self) -> bool {
        &&& 0 < self.width <= MAX_MAP_DIM
        &&& 0 < self.height <= MAX_MAP_DIM
        &&& forall|i: int| 0 <= i < self.layers@.len() ==> grid_wf(
            grid_of(#[trigger] self.layers@[i]),
            self.width as int,
            self.height as int,
        )
        &&& forall|i: int| 0 <= i < self.tilesets@.len() ==> tileset_wf(#[trigger] self.tilesets@[i])
    }

    /// Checks `valid` at run time.
    pub fn validate(&self) -> (b: bool)
        ensures
            b == self.valid(),
    {
        if !(0 < self.width && self.width <= MAX_MAP_DIM && 0 < self.height && self.height
            <= MAX_MAP_DIM) {
            return false;
        }
        let mut i: usize = 0;
        while i < self.layers.len()
            invariant
                0 <= i <= self.layers@.len(),
                0 < self.width <= MAX_MAP_DIM,
                0 < self.height <= MAX_MAP_DIM,
                forall|j: int| 0 <= j < i ==> grid_wf(
                    grid_of(#[trigger] self.layers@[j]),
                    self.width as int,
                    self.height as int,
                ),
            decreases self.layers@.len() - i,
        {
            let layer = &self.layers[i];
            if layer.tiles.len() != self.height as usize {
                return false;
            }
            let mut y: usize = 0;
            while y < layer.tiles.len()
                invariant
                    0 <= y <= layer.tiles@.len(),
                    i < self.layers@.len(),
                    *layer == self.layers@[i as int],
                    layer.tiles@.len() == self.height as int,
                    forall|r: int| 0 <= r < y ==> (#[trigger] layer.tiles@[r])@.len()
                        == self.width as int,
                decreases layer.tiles@.len() - y,
            {
                if layer.tiles[y].len() != self.width as usize {
                    proof {
                        assert(grid_of(self.layers@[i as int])[y as int] == layer.tiles@[
                            y as int]@);
                    }
                    return false;
                }
                y = y + 1;
            }
            proof {
                assert(grid_wf(
                    grid_of(self.layers@[i as int]),
                    self.width as int,
                    self.height as int,
                ));
            }
            i = i + 1;
        }
        let mut t: usize = 0;
        while t < self.tilesets.len()
            invariant
                0 <= t <= self.tilesets@.len(),
                forall|j: int| 0 <= j < t ==> tileset_wf(#[trigger] self.tilesets@[j]),
            decreases self.tilesets@.len() - t,
        {
            let ts = &self.tilesets[t];
            if !(0 < ts.tile_width && ts.tile_width <= MAX_TILE_DIM && 0 < ts.tile_height
                && ts.tile_height <= MAX_TILE_DIM) {
                return false;
            }
            t = t + 1;
        }
        true
    }
}

/// The mathematical content of a `TileMap`.
pub ghost struct TileMapView {
    /// Pixel location of the top left of the map.
    pub pos: Point,
    /// The camera viewport.
    pub camera: Rect,
    /// Raw layers, `layers[l][y][x]`.
    pub layers: Seq<Seq<Seq<u32>>>,
    pub tilesets: Seq<TilesetData>,
    /// The logical layer this map draws.
    pub layer_index: int,
    /// Which tileset tile dimensions are taken from.
    pub tile_set: int,
    /// Map width in tiles.
    pub width: int,
    /// Map height in tiles.
    pub height: int,
    /// Tile width in pixels.
    pub tile_w: int,
    /// Tile height in pixels.
    pub tile_h: int,
    /// The gid marking impassable tiles, when one is configured.
    pub blocking_tile: Option<u32>,
    /// Per layer, the occupancy index: flattened tile coordinate to entity.
    pub entities: Seq<Map<usize, Entity>>,
    /// Entity id to (layer, flattened tile index).
    pub entity_index: Map<u64, (usize, usize)>,
}

/// The first tileset named `collision_graphic` configures the blocking tile.
pub open spec fn spec_blocking_of(tilesets: Seq<TilesetData>) -> Option<u32>
    decreases tilesets.len(),
{
    if tilesets.len() == 0 {
        None
    } else if tilesets[0].name@ == collision_name() {
        Some(tilesets[0].first_gid)
    } else {
        spec_blocking_of(tilesets.drop_first())
    }
}

/// The tile map.
pub struct TileMap {
    pos: Point,
    camera: Rect,
    layers: Vec<TileLayer>,
    tilesets: Vec<TilesetData>,
    layer_index: usize,
    tile_set: usize,
    width: u32,
    height: u32,
    tile_width: u32,
    tile_height: u32,
    blocking_tile: Option<u32>,
    entities: Vec<HashMap<usize, Entity>>,
    entityid_to_index: HashMap<u64, (usize, usize)>,
}

impl View for TileMap {
    type V = TileMapView;

    closed spec fn view(&self) -> TileMapView {
        TileMapView {
            pos: self.pos,
            camera: self.camera,
            layers: layer_views(self.layers@),
            tilesets: self.tilesets@,
            layer_index: self.layer_index as int,
            tile_set: self.tile_set as int,
            width: self.width as int,
            height: self.height as int,
            tile_w: self.tile_width as int,
            tile_h: self.tile_height as int,
            blocking_tile: self.blocking_tile,
            entities: occ_views(self.entities@),
            entity_index: self.entityid_to_index@,
        }
    }
}

impl TileMap {
    /// Map width in tiles.
    pub open spec fn spec_width(&self) -> int {
        self@.width
    }

    /// Map height in tiles.
    pub open spec fn spec_height(&self) -> int {
        self@.height
    }

    /// Tile width in pixels.
    pub open spec fn spec_tile_w(&self) -> int {
        self@.tile_w
    }

    /// Tile height in pixels.
    pub open spec fn spec_tile_h(&self) -> int {
        self@.tile_h
    }

    /// Map width in pixels.
    pub open spec fn spec_pixel_w(&self) -> int {
        self@.width * self@.tile_w
    }

    /// Map height in pixels.
    pub open spec fn spec_pixel_h(&self) -> int {
        self@.height * self@.tile_h
    }

    /// Geometric well-formedness: bounded positive dimensions, layers that
    /// are full grids, a valid tileset choice that the cached tile dimensions
    /// agree with, and a bounded origin and camera.
    pub open spec fn geometry_wf(&self) -> bool {
        &&& 0 < self@.width <= MAX_MAP_DIM
        &&& 0 < self@.height <= MAX_MAP_DIM
        &&& 0 < self@.tile_w <= MAX_TILE_DIM
        &&& 0 < self@.tile_h <= MAX_TILE_DIM
        &&& -MAX_ORIGIN <= self@.pos.x <= MAX_ORIGIN
        &&& -MAX_ORIGIN <= self@.pos.y <= MAX_ORIGIN
        &&& -MAX_ORIGIN <= self@.camera.x <= MAX_ORIGIN
        &&& -MAX_ORIGIN <= self@.camera.y <= MAX_ORIGIN
        &&& forall|l: int| 0 <= l < self@.layers.len() ==> grid_wf(
            #[trigger] self@.layers[l],
            self@.width,
            self@.height,
        )
        &&& 0 <= self@.tile_set < self@.tilesets.len()
        &&& self@.tilesets[self@.tile_set].tile_width == self@.tile_w
        &&& self@.tilesets[self@.tile_set].tile_height == self@.tile_h
    }

    /// What holds of every stored entity: it sits in the layer map of its own
    /// layer under the flattened index of its own tile coordinate, its tile
    /// coordinate is in bounds, and the id index points back at it.
    pub open spec fn occ_slot_wf(&self, l: int, k: usize) -> bool {
        let e = self@.entities[l][k];
        &&& e.layer == l
        &&& (e.tile_x as int) < self@.width
        &&& (e.tile_y as int) < self@.height
        &&& (k as int) == e.tile_x + e.tile_y * self@.width
        &&& e.wf()
        &&& self@.entity_index.contains_key(e.id)
        &&& self@.entity_index[e.id] == (e.layer, k)
    }

    /// Occupancy well-formedness: every stored entity is indexed consistently
    /// and every id-index entry points at a stored entity with that id.
    pub open spec fn occ_wf(&self) -> bool {
        &&& forall|l: int, k: usize|
            0 <= l < self@.entities.len() && (#[trigger] self@.entities[l].contains_key(k))
                ==> self.occ_slot_wf(l, k)
        &&& forall|id: u64| #[trigger] self@.entity_index.contains_key(id) ==> {
            let p = self@.entity_index[id];
            &&& (p.0 as int) < self@.entities.len()
            &&& self@.entities[p.0 as int].contains_key(p.1)
            &&& self@.entities[p.0 as int][p.1].id == id
        }
    }

    /// The map's invariant, established by `new` and kept by every method.
    pub open spec fn wf(&self) -> bool {
        self.geometry_wf() && self.occ_wf()
    }

    /// The entity stored at a tile coordinate of a layer, if any.
    pub open spec fn occupant(&self, layer: int, x: int, y: int) -> Option<Entity> {
        let k = (x + y * self@.width) as usize;
        if 0 <= layer < self@.entities.len() && 0 <= x < self@.width && 0 <= y < self@.height
            && self@.entities[layer].contains_key(k) {
            Some(self@.entities[layer][k])
        } else {
            None
        }
    }

    /// Builds a map over validated data.  Tile dimensions come from the
    /// chosen tileset; the blocking tile is the `first_gid` of the first
    /// tileset named `collision_graphic`, if any; the camera starts as the
    /// unit rectangle at the origin and the occupancy index starts empty.
    pub fn new(map_def: TileMapData, layer_index: usize, tile_set: usize) -> (r: TileMap)
        requires
            map_def.valid(),
            tile_set < map_def.tilesets@.len(),
        ensures
            r.wf(),
            r@.pos == (Point { x: 0, y: 0 }),
            r@.camera == (Rect { x: 0, y: 0, w: 1, h: 1 }),
            r@.layers == layer_views(map_def.layers@),
            r@.tilesets == map_def.tilesets@,
            r@.layer_index == layer_index as int,
            r@.tile_set == tile_set as int,
            r@.width == map_def.width as int,
            r@.height == map_def.height as int,
            r@.tile_w == map_def.tilesets@[tile_set as int].tile_width as int,
            r@.tile_h == map_def.tilesets@[tile_set as int].tile_height as int,
            r@.blocking_tile == spec_blocking_of(map_def.tilesets@),
            r@.entities == Seq::<Map<usize, Entity>>::empty(),
            r@.entity_index == Map::<u64, (usize, usize)>::empty(),
    {
        let cname = collision_name_bytes();
        let mut blocking_tile: Option<u32> = None;
        let mut i: usize = map_def.tilesets.len();
        proof {
            assert(map_def.tilesets@.skip(i as int) =~= Seq::<TilesetData>::empty());
        }
        while i > 0
            invariant
                0 <= i <= map_def.tilesets@.len(),
                blocking_tile == spec_blocking_of(map_def.tilesets@.skip(i as int)),
                cname@ == collision_name(),
            decreases i,
        {
            i = i - 1;
            let ts = &map_def.tilesets[i];
            if crate::util::bytes_eq(ts.name.as_slice(), cname.as_slice()) {
                blocking_tile = Some(ts.first_gid);
            }
            proof {
                assert(map_def.tilesets@.skip(i as int).drop_first() =~= map_def.tilesets@.skip(
                    i as int + 1,
                ));
            }
        }
        proof {
            assert(map_def.tilesets@.skip(0) =~= map_def.tilesets@);
        }
        let tile_width = map_def.tilesets[tile_set].tile_width;
        let tile_height = map_def.tilesets[tile_set].tile_height;
        TileMap {
            pos: Point { x: 0, y: 0 },
            camera: Rect { x: 0, y: 0, w: 1, h: 1 },
            layers: map_def.layers,
            tilesets: map_def.tilesets,
            layer_index,
            tile_set,
            width: map_def.width,
            height: map_def.height,
            tile_width,
            tile_height,
            blocking_tile,
            entities: Vec::new(),
            entityid_to_index: HashMap::new(),
        }
    }

    /// Flattens a tile coordinate into an index: `x + y * width`.
    pub fn coord_to_index(&self, x: usize, y: usize) -> (r: usize)
        requires
            self.wf(),
            x < self.spec_width(),
            y < self.spec_height(),
        ensures
            r == x + y * self.spec_width(),
    {
        proof {
            assert((y as int) * (self@.width) <= MAX_MAP_DIM * MAX_MAP_DIM) by (nonlinear_arith)
                requires
                    0 <= y as int <= MAX_MAP_DIM,
                    0 < self@.width <= MAX_MAP_DIM,
            ;
        }
        x + y * (self.width as usize)
    }

    /// The tile id at `(x, y)` of raw layer `layer`.
    pub fn get_tile(&self, x: usize, y: usize, layer: usize) -> (r: usize)
        requires
            self.wf(),
            x < self.spec_width(),
            y < self.spec_height(),
            layer < self@.layers.len(),
        ensures
            r == self@.layers[layer as int][y as int][x as int],
    {
        proof {
            assert(self@.layers[layer as int] == grid_of(self.layers@[layer as int]));
            assert(grid_wf(self@.layers[layer as int], self@.width, self@.height));
            assert(self.layers@[layer as int].tiles@.len() == self@.height);
            assert(self@.layers[layer as int][y as int] == self.layers@[layer as int].tiles@[
                y as int]@);
        }
        self.layers[layer].tiles[y][x] as usize
    }

    /// The foot point of a tile: the pixel at the horizontal centre of the
    /// tile and at its bottom edge (exclusive), where entities anchor.
    pub open spec fn spec_tile_foot(&self, x: int, y: int) -> Point {
        Point {
            x: (self@.pos.x + self@.tile_w * x + self@.tile_w / 2) as i64,
            y: (self@.pos.y + self@.tile_h * y + self@.tile_h) as i64,
        }
    }

    /// Computes the foot point of the given tile.
    pub fn get_tile_foot(&self, x: usize, y: usize) -> (r: Point)
        requires
            self.wf(),
            x < self.spec_width(),
            y < self.spec_height(),
        ensures
            r == self.spec_tile_foot(x as int, y as int),
    {
        proof {
            assert(self@.tile_w * (x as int) <= MAX_TILE_DIM * MAX_MAP_DIM) by (nonlinear_arith)
                requires
                    0 <= x as int <= MAX_MAP_DIM,
                    0 < self@.tile_w <= MAX_TILE_DIM,
            ;
            assert(self@.tile_h * (y as int) <= MAX_TILE_DIM * MAX_MAP_DIM) by (nonlinear_arith)
                requires
                    0 <= y as int <= MAX_MAP_DIM,
                    0 < self@.tile_h <= MAX_TILE_DIM,
            ;
        }
        let tw = self.tile_width as i64;
        let th = self.tile_height as i64;
        let fx = self.pos.x + tw * (x as i64) + tw / 2;
        let fy = self.pos.y + th * (y as i64) + th;
        Point { x: fx, y: fy }
    }

    /// Sets the camera position to the given point.
    pub fn goto(&mut self, pos: Point)
        requires
            -MAX_ORIGIN <= pos.x <= MAX_ORIGIN,
            -MAX_ORIGIN <= pos.y <= MAX_ORIGIN,
        ensures
            final(self)@ == (TileMapView {
                camera: Rect { x: pos.x, y: pos.y, ..old(self)@.camera },
                ..old(self)@
            }),
            old(self).wf() ==> final(self).wf(),
    {
        self.camera.x = pos.x;
        self.camera.y = pos.y;
    }

    /// Sets the camera position to the centre of the given tile.
    pub fn goto_tile(&mut self, x: usize, y: usize)
        requires
            old(self).wf(),
            x < old(self).spec_width(),
            y < old(self).spec_height(),
        ensures
            final(self)@ == (TileMapView {
                camera: Rect {
                    x: (old(self)@.tile_w * x + old(self)@.tile_w / 2) as i64,
                    y: (old(self)@.tile_h * y + old(self)@.tile_h / 2) as i64,
                    ..old(self)@.camera
                },
                ..old(self)@
            }),
            final(self).wf(),
    {
        proof {
            assert(self@.tile_w * (x as int) <= MAX_TILE_DIM * MAX_MAP_DIM) by (nonlinear_arith)
                requires
                    0 <= x as int <= MAX_MAP_DIM,
                    0 < self@.tile_w <= MAX_TILE_DIM,
            ;
            assert(self@.tile_h * (y as int) <= MAX_TILE_DIM * MAX_MAP_DIM) by (nonlinear_arith)
                requires
                    0 <= y as int <= MAX_MAP_DIM,
                    0 < self@.tile_h <= MAX_TILE_DIM,
            ;
        }
        let tw = self.tile_width as i64;
        let th = self.tile_height as i64;
        let cx = tw * (x as i64) + tw / 2;
        let cy = th * (y as i64) + th / 2;
        self.goto(Point { x: cx, y: cy });
    }

    /// Whether the collision sub-layer of logical layer `layer` holds the
    /// blocking tile at `(x, y)`; always false when no blocking tile is
    /// configured.
    pub open spec fn spec_is_blocked(&self, layer: int, x: int, y: int) -> bool {
        match self@.blocking_tile {
            Some(b) => self@.layers[3 * layer + 2][y][x] == b,
            None => false,
        }
    }

    /// Queries the collision sub-layer of logical layer `layer` at `(x, y)`.
    pub fn is_blocked(&self, layer: usize, tile_x: usize, tile_y: usize) -> (r: bool)
        requires
            self.wf(),
            tile_x < self.spec_width(),
            tile_y < self.spec_height(),
            3 * layer + 2 < self@.layers.len(),
        ensures
            r == self.spec_is_blocked(layer as int, tile_x as int, tile_y as int),
    {
        let layer_len = self.layers.len();
        proof {
            assert(self@.layers.len() == layer_len as int);
        }
        match self.blocking_tile {
            None => false,
            Some(blocking_tile) => {
                let tile = self.get_tile(tile_x, tile_y, layer * 3 + 2);
                tile == blocking_tile as usize
            },
        }
    }

    /// The number of logical layers: a third of the raw layer count.
    pub fn layer_count(&self) -> (r: usize)
        requires
            self@.layers.len() % 3 == 0,
        ensures
            r == self@.layers.len() / 3,
    {
        self.layers.len() / 3
    }

    /// Where a pixel point lands on the tile grid: the point is clamped into
    /// the map's pixel extent per axis, then divided by the tile size.
    pub open spec fn spec_point_to_tile(&self, x: int, y: int) -> (int, int) {
        let cx = spec_clamp(x, self@.pos.x as int, self@.pos.x + self.spec_pixel_w() - 1);
        let cy = spec_clamp(y, self@.pos.y as int, self@.pos.y + self.spec_pixel_h() - 1);
        ((cx - self@.pos.x) / self@.tile_w, (cy - self@.pos.y) / self@.tile_h)
    }

    /// Converts world pixel coordinates to the tile containing them; points
    /// outside the map land on the nearest boundary tile, never an error.
    pub fn point_to_tile(&self, x: i64, y: i64) -> (r: (usize, usize))
        requires
            self.wf(),
        ensures
            r.0 as int == self.spec_point_to_tile(x as int, y as int).0,
            r.1 as int == self.spec_point_to_tile(x as int, y as int).1,
            r.0 < self.spec_width(),
            r.1 < self.spec_height(),
    {
        proof {
            assert((self@.width) * (self@.tile_w) <= MAX_MAP_DIM * MAX_TILE_DIM)
                by (nonlinear_arith)
                requires
                    0 < self@.width <= MAX_MAP_DIM,
                    0 < self@.tile_w <= MAX_TILE_DIM,
            ;
            assert((self@.height) * (self@.tile_h) <= MAX_MAP_DIM * MAX_TILE_DIM)
                by (nonlinear_arith)
                requires
                    0 < self@.height <= MAX_MAP_DIM,
                    0 < self@.tile_h <= MAX_TILE_DIM,
            ;
            assert((self@.width) * (self@.tile_w) >= 1 * 1) by (nonlinear_arith)
                requires
                    1 <= self@.width && 1 <= self@.tile_w,
            ;
            assert((self@.height) * (self@.tile_h) >= 1 * 1) by (nonlinear_arith)
                requires
                    1 <= self@.height && 1 <= self@.tile_h,
            ;
        }
        let px = (self.width as i64) * (self.tile_width as i64);
        let py = (self.height as i64) * (self.tile_height as i64);
        let cx = clamp(x, self.pos.x, self.pos.x + px - 1);
        let cy = clamp(y, self.pos.y, self.pos.y + py - 1);
        let dx = (cx - self.pos.x) as u64;
        let dy = (cy - self.pos.y) as u64;
        let tx = dx / (self.tile_width as u64);
        let ty = dy / (self.tile_height as u64);
        proof {
            vstd::arithmetic::div_mod::lemma_multiply_divide_lt(
                dx as int,
                self@.tile_w,
                self@.width,
            );
            vstd::arithmetic::div_mod::lemma_multiply_divide_lt(
                dy as int,
                self@.tile_h,
                self@.height,
            );
        }
        (tx as usize, ty as usize)
    }

    /// Whether the slot `e` claims to sit in (its own layer and tile
    /// coordinate) holds a stored entity with `e`'s identity.
    pub open spec fn holds_entity(&self, e: Entity) -> bool {
        match self.occupant(e.layer as int, e.tile_x as int, e.tile_y as int) {
            Some(s) => s.id == e.id,
            None => false,
        }
    }

    /// The entity at a tile coordinate of a layer, if one is stored there;
    /// `None` for coordinates outside the map or layers never used.
    pub fn entity(&self, x: usize, y: usize, layer: usize) -> (r: Option<&Entity>)
        requires
            self.wf(),
        ensures
            match r {
                Some(e) => self.occupant(layer as int, x as int, y as int) == Some(*e),
                None => self.occupant(layer as int, x as int, y as int) is None,
            },
    {
        if layer >= self.entities.len() {
            return None;
        }
        if x >= self.width as usize || y >= self.height as usize {
            return None;
        }
        let index = self.coord_to_index(x, y);
        proof {
            assert(self@.entities[layer as int] == self.entities@[layer as int]@);
        }
        match self.entities[layer].get(&index) {
            Some(e) => Some(e),
            None => None,
        }
    }

    /// The occupancy index after placing `e` under key `k` in layer `l`,
    /// growing the layer list with empty maps as needed.
    pub open spec fn spec_place(
        entities: Seq<Map<usize, Entity>>,
        l: int,
        k: usize,
        e: Entity,
    ) -> Seq<Map<usize, Entity>> {
        let grown = if l < entities.len() {
            entities
        } else {
            entities + Seq::new((l + 1 - entities.len()) as nat, |i: int| Map::<usize, Entity>::empty())
        };
        grown.update(l, grown[l].insert(k, e))
    }

    /// Whether `add_entity` must refuse `e` for its shape: a tile coordinate
    /// outside the map or an ill-formed footprint.
    pub open spec fn spec_add_oob(&self, e: Entity) -> bool {
        !(e.tile_x < self@.width && e.tile_y < self@.height && e.wf())
    }

    /// Inserts an entity into the occupancy index at the slot given by its
    /// own layer and tile coordinate, growing the layer list as needed.  The
    /// placement is refused, and the map left unchanged, when the coordinate
    /// or footprint is out of bounds, when the slot is already occupied, or
    /// when the id is already in use.
    pub fn add_entity(&mut self, e: Entity) -> (r: Result<(), MapError>)
        requires
            old(self).wf(),
        ensures
            final(self).wf(),
            final(self)@ == (TileMapView {
                entities: final(self)@.entities,
                entity_index: final(self)@.entity_index,
                ..old(self)@
            }),
            r == (if old(self).spec_add_oob(e) {
                Err::<(), MapError>(MapError::OutOfBounds)
            } else if old(self).occupant(e.layer as int, e.tile_x as int, e.tile_y as int)
                is Some {
                Err::<(), MapError>(MapError::Occupied)
            } else if old(self)@.entity_index.contains_key(e.id) {
                Err::<(), MapError>(MapError::IdInUse)
            } else {
                Ok::<(), MapError>(())
            }),
            r is Err ==> final(self)@ == old(self)@,
            r is Ok ==> {
                let k = (e.tile_x + e.tile_y * old(self)@.width) as usize;
                &&& final(self)@.entities == Self::spec_place(
                    old(self)@.entities,
                    e.layer as int,
                    k,
                    e,
                )
                &&& final(self)@.entity_index == old(self)@.entity_index.insert(
                    e.id,
                    (e.layer, k),
                )
            },
    {
        let w = self.width as usize;
        let h = self.height as usize;
        if !(e.tile_x < w && e.tile_y < h && 0 <= e.dimensions.x && e.dimensions.x
            <= crate::entity::MAX_ENTITY_DIM && 0 <= e.dimensions.y && e.dimensions.y
            <= crate::entity::MAX_ENTITY_DIM) {
            return Err(MapError::OutOfBounds);
        }
        let index = self.coord_to_index(e.tile_x, e.tile_y);
        if e.layer < self.entities.len() {
            proof {
                assert(self@.entities[e.layer as int] == self.entities@[e.layer as int]@);
            }
            if self.entities[e.layer].contains_key(&index) {
                return Err(MapError::Occupied);
            }
        }
        if self.entityid_to_index.contains_key(&e.id) {
            return Err(MapError::IdInUse);
        }
        proof {
            assert(old(self).occupant(e.layer as int, e.tile_x as int, e.tile_y as int) is None);
        }
        let ghost orig = self.entities@;
        while e.layer >= self.entities.len()
            invariant
                orig.len() <= self.entities@.len(),
                orig.len() <= e.layer ==> self.entities@.len() <= e.layer + 1,
                orig.len() > e.layer ==> self.entities@.len() == orig.len(),
                self.entities@.subrange(0, orig.len() as int) == orig,
                self.pos == old(self).pos,
                self.camera == old(self).camera,
                self.layers == old(self).layers,
                self.tilesets == old(self).tilesets,
                self.layer_index == old(self).layer_index,
                self.tile_set == old(self).tile_set,
                self.width == old(self).width,
                self.height == old(self).height,
                self.tile_width == old(self).tile_width,
                self.tile_height == old(self).tile_height,
                self.blocking_tile == old(self).blocking_tile,
                self.entityid_to_index == old(self).entityid_to_index,
                forall|j: int| orig.len() <= j < self.entities@.len() ==> (
                #[trigger] self.entities@[j])@ == Map::<usize, Entity>::empty(),
            decreases e.layer + 1 - self.entities@.len(),
        {
            self.entities.push(HashMap::new());
            proof {
                assert(self.entities@.subrange(0, orig.len() as int) =~= orig);
            }
        }
        let ghost grown_seq = self.entities@;
        let mut lm = self.entities.remove(e.layer);
        let ghost lm0 = lm@;
        lm.insert(index, e);
        let ghost lm1 = lm@;
        self.entities.insert(e.layer, lm);
        self.entityid_to_index.insert(e.id, (e.layer, index));
        proof {
            let l = e.layer as int;
            let pre = old(self)@;
            let target = Self::spec_place(pre.entities, l, index, e);
            assert(self.entities@ =~= grown_seq.update(l, self.entities@[l]));
            assert(self.entities@[l]@ == lm1);
            assert(lm0 == grown_seq[l]@);
            assert(occ_views(self.entities@) =~= target) by {
                assert forall|j: int|
                    0 <= j < occ_views(self.entities@).len() implies occ_views(self.entities@)[j]
                    == target[j] by {
                    if j == l {
                        if l < pre.entities.len() {
                            assert(grown_seq[j] == orig[j]);
                            assert(pre.entities[j] == orig[j]@);
                        } else {
                            assert(grown_seq[j]@ == Map::<usize, Entity>::empty());
                        }
                        assert(occ_views(self.entities@)[j] == lm1);
                    } else if j < pre.entities.len() {
                        assert(grown_seq[j] == orig[j]);
                        assert(pre.entities[j] == orig[j]@);
                        assert(occ_views(self.entities@)[j] == grown_seq[j]@);
                    } else {
                        assert(grown_seq[j]@ == Map::<usize, Entity>::empty());
                        assert(occ_views(self.entities@)[j] == grown_seq[j]@);
                    }
                }
            }
            assert(self@.entities == target);
            assert(self@.entity_index == pre.entity_index.insert(e.id, (e.layer, index)));
            assert(self.occ_wf()) by {
                assert forall|l2: int, k2: usize|
                    0 <= l2 < self@.entities.len() && (#[trigger] self@.entities[l2].contains_key(
                        k2,
                    )) implies self.occ_slot_wf(l2, k2) by {
                    if l2 == l && k2 == index {
                        assert(self@.entities[l2][k2] == e);
                    } else {
                        if l2 == l {
                            assert(lm1.contains_key(k2) && k2 != index);
                            assert(lm0.contains_key(k2));
                            assert(l < pre.entities.len());
                        }
                        assert(0 <= l2 < pre.entities.len());
                        assert(pre.entities[l2].contains_key(k2));
                        assert(old(self)@.entities[l2].contains_key(k2));
                        assert(old(self).occ_slot_wf(l2, k2));
                        let s = pre.entities[l2][k2];
                        assert(pre.entity_index.contains_key(s.id));
                        assert(s.id != e.id);
                        assert(self@.entities[l2][k2] == s);
                    }
                }
                assert forall|id: u64| #[trigger]
                    self@.entity_index.contains_key(id) implies {
                    let p = self@.entity_index[id];
                    &&& (p.0 as int) < self@.entities.len()
                    &&& self@.entities[p.0 as int].contains_key(p.1)
                    &&& self@.entities[p.0 as int][p.1].id == id
                } by {
                    if id == e.id {
                        assert(self@.entity_index[id] == (e.layer, index));
                        assert(self@.entities[l].contains_key(index));
                    } else {
                        assert(pre.entity_index.contains_key(id));
                        let p = pre.entity_index[id];
                        assert(old(self)@.entities[p.0 as int].contains_key(p.1));
                        assert(!(p.0 as int == l && p.1 == index));
                        assert(self@.entities[p.0 as int][p.1] == pre.entities[p.0 as int][p.1]);
                    }
                }
            }
        }
        Ok(())
    }

    /// What the map's invariant says of a stored entity, restated over the
    /// entity's own fields: it was stored under its own coordinates, which
    /// are in bounds, and the id index points at that slot.
    proof fn lemma_restore_context(pre_map: TileMap, ent: Entity, e: Entity)
        requires
            pre_map.wf(),
            pre_map.holds_entity(e),
            ent == pre_map@.entities[e.layer as int][(e.tile_x + e.tile_y * pre_map@.width) as usize],
        ensures
            0 <= ent.layer < pre_map@.entities.len(),
            ent.id == e.id,
            ent.layer == e.layer,
            ent.wf(),
            ent.tile_x < pre_map@.width,
            ent.tile_y < pre_map@.height,
            ({
                let k = (ent.tile_x + ent.tile_y * pre_map@.width) as usize;
                &&& k == (e.tile_x + e.tile_y * pre_map@.width) as usize
                &&& pre_map@.entities[ent.layer as int].contains_key(k)
                &&& pre_map@.entities[ent.layer as int][k] == ent
                &&& pre_map@.entity_index.contains_key(ent.id)
                &&& pre_map@.entity_index[ent.id] == (ent.layer, k)
            }),
    {
        let l = e.layer as int;
        let k = (e.tile_x + e.tile_y * pre_map@.width) as usize;
        assert(pre_map@.entities[l].contains_key(k));
        assert(pre_map.occ_slot_wf(l, k));
    }

    /// Re-placing a stored entity into the slot it was just removed from
    /// restores the occupancy index and the id index exactly.
    proof fn lemma_place_back(pre: TileMapView, mid: TileMapView, post: TileMapView, ent: Entity)
        requires
            0 <= ent.layer < pre.entities.len(),
            ({
                let l = ent.layer as int;
                let k = (ent.tile_x + ent.tile_y * pre.width) as usize;
                &&& pre.entities[l].contains_key(k)
                &&& pre.entities[l][k] == ent
                &&& pre.entity_index.contains_key(ent.id)
                &&& pre.entity_index[ent.id] == (ent.layer, k)
                &&& mid.entities == pre.entities.update(l, pre.entities[l].remove(k))
                &&& mid.entity_index == pre.entity_index.remove(ent.id)
                &&& post.entities == TileMap::spec_place(mid.entities, l, k, ent)
                &&& post.entity_index == mid.entity_index.insert(ent.id, (ent.layer, k))
            }),
        ensures
            post.entities == pre.entities,
            post.entity_index == pre.entity_index,
    {
        let l = ent.layer as int;
        let k = (ent.tile_x + ent.tile_y * pre.width) as usize;
        assert(mid.entities[l].insert(k, ent) =~= pre.entities[l]);
        assert(post.entities =~= pre.entities);
        assert(post.entity_index =~= pre.entity_index);
    }

    /// Removes the entity with `e`'s identity from the slot `e` claims (its
    /// own layer and tile coordinate) and hands it back.  Fails with
    /// `NotFound`, leaving the map unchanged, when that slot holds no entity
    /// of that identity.
    pub fn remove_entity(&mut self, e: &Entity) -> (r: Result<Entity, MapError>)
        requires
            old(self).wf(),
        ensures
            final(self).wf(),
            final(self)@ == (TileMapView {
                entities: final(self)@.entities,
                entity_index: final(self)@.entity_index,
                ..old(self)@
            }),
            !old(self).holds_entity(*e) ==> r == Err::<Entity, MapError>(MapError::NotFound)
                && final(self)@ == old(self)@,
            old(self).holds_entity(*e) ==> {
                let l = e.layer as int;
                let k = (e.tile_x + e.tile_y * old(self)@.width) as usize;
                let s = old(self)@.entities[l][k];
                &&& r == Ok::<Entity, MapError>(s)
                &&& final(self)@.entities == old(self)@.entities.update(
                    l,
                    old(self)@.entities[l].remove(k),
                )
                &&& final(self)@.entity_index == old(self)@.entity_index.remove(e.id)
            },
    {
        let w = self.width as usize;
        let h = self.height as usize;
        if e.tile_x >= w || e.tile_y >= h {
            return Err(MapError::NotFound);
        }
        if e.layer >= self.entities.len() {
            return Err(MapError::NotFound);
        }
        let index = self.coord_to_index(e.tile_x, e.tile_y);
        proof {
            assert(self@.entities[e.layer as int] == self.entities@[e.layer as int]@);
        }
        let mut lm = self.entities.remove(e.layer);
        let ghost lm0 = lm@;
        let id_matches = match lm.get(&index) {
            Some(s) => s.id == e.id,
            None => false,
        };
        if !id_matches {
            self.entities.insert(e.layer, lm);
            proof {
                assert(self.entities@ =~= old(self).entities@);
            }
            return Err(MapError::NotFound);
        }
        let removed_opt = lm.remove(&index);
        let ghost lm1 = lm@;
        let removed = removed_opt.unwrap();
        self.entities.insert(e.layer, lm);
        let _ = self.entityid_to_index.remove(&e.id);
        proof {
            let l = e.layer as int;
            let pre = old(self)@;
            let k = index;
            let s = pre.entities[l][k];
            assert(lm0 == pre.entities[l]);
            assert(lm0.contains_key(k) && lm0[k] == removed);
            assert(removed == s);
            assert(lm1 == lm0.remove(k));
            assert(self.entities@ =~= old(self).entities@.update(l, self.entities@[l]));
            assert(self.entities@[l]@ == lm1);
            assert(occ_views(self.entities@) =~= pre.entities.update(l, pre.entities[l].remove(k)))
                by {
                assert forall|j: int|
                    0 <= j < occ_views(self.entities@).len() implies occ_views(self.entities@)[j]
                    == pre.entities.update(l, pre.entities[l].remove(k))[j] by {
                    if j != l {
                        assert(self.entities@[j] == old(self).entities@[j]);
                    }
                }
            }
            assert(self@.entity_index == pre.entity_index.remove(e.id));
            assert(self.occ_wf()) by {
                assert forall|l2: int, k2: usize|
                    0 <= l2 < self@.entities.len() && (#[trigger] self@.entities[l2].contains_key(
                        k2,
                    )) implies self.occ_slot_wf(l2, k2) by {
                    assert(old(self)@.entities[l2].contains_key(k2));
                    assert(old(self).occ_slot_wf(l2, k2));
                    let s2 = pre.entities[l2][k2];
                    assert(self@.entities[l2][k2] == s2);
                    assert(s2.id != e.id) by {
                        if s2.id == e.id {
                            assert(pre.entity_index[s2.id] == (s2.layer, k2));
                            assert(pre.entity_index[s.id] == (s.layer, k));
                            assert(l2 == l && k2 == k);
                        }
                    }
                }
                assert forall|id: u64| #[trigger]
                    self@.entity_index.contains_key(id) implies {
                    let p = self@.entity_index[id];
                    &&& (p.0 as int) < self@.entities.len()
                    &&& self@.entities[p.0 as int].contains_key(p.1)
                    &&& self@.entities[p.0 as int][p.1].id == id
                } by {
                    assert(pre.entity_index.contains_key(id) && id != e.id);
                    let p = pre.entity_index[id];
                    assert(old(self)@.entities[p.0 as int].contains_key(p.1));
                    assert(old(self)@.entities[p.0 as int][p.1].id == id);
                    assert(!(p.0 as int == l && p.1 == k)) by {
                        if p.0 as int == l && p.1 == k {
                            assert(pre.entities[l][k].id == id);
                        }
                    }
                    assert(self@.entities[p.0 as int][p.1] == pre.entities[p.0 as int][p.1]);
                }
            }
        }
        Ok(removed)
    }

    /// Updates the animation frame of the entity stored at a tile coordinate
    /// of a layer: the one in-place change a caller may make to a stored
    /// entity, since it leaves the fields the occupancy index is keyed on
    /// untouched.  Fails with `NotFound`, leaving the map unchanged, when no
    /// entity is stored there.
    pub fn set_entity_frame(&mut self, x: usize, y: usize, layer: usize, frame: usize) -> (r:
        Result<(), MapError>)
        requires
            old(self).wf(),
        ensures
            final(self).wf(),
            final(self)@ == (TileMapView { entities: final(self)@.entities, ..old(self)@ }),
            old(self).occupant(layer as int, x as int, y as int) is None ==> r == Err::<
                (),
                MapError,
            >(MapError::NotFound) && final(self)@ == old(self)@,
            old(self).occupant(layer as int, x as int, y as int) matches Some(s) ==> {
                let k = (x + y * old(self)@.width) as usize;
                &&& r == Ok::<(), MapError>(())
                &&& final(self)@.entities == old(self)@.entities.update(
                    layer as int,
                    old(self)@.entities[layer as int].insert(k, Entity { frame, ..s }),
                )
            },
    {
        let w = self.width as usize;
        let h = self.height as usize;
        if x >= w || y >= h {
            return Err(MapError::NotFound);
        }
        if layer >= self.entities.len() {
            return Err(MapError::NotFound);
        }
        let index = self.coord_to_index(x, y);
        proof {
            assert(self@.entities[layer as int] == self.entities@[layer as int]@);
        }
        let mut lm = self.entities.remove(layer);
        let ghost lm0 = lm@;
        if !lm.contains_key(&index) {
            self.entities.insert(layer, lm);
            proof {
                assert(self.entities@ =~= old(self).entities@);
            }
            return Err(MapError::NotFound);
        }
        let removed_opt = lm.remove(&index);
        let mut e2 = removed_opt.unwrap();
        e2.set_frame(frame);
        let ghost lm1 = lm@;
        lm.insert(index, e2);
        self.entities.insert(layer, lm);
        proof {
            let l = layer as int;
            let pre = old(self)@;
            let k = index;
            let s = pre.entities[l][k];
            assert(lm0 == pre.entities[l]);
            assert(lm0.contains_key(k));
            assert(e2 == (Entity { frame, ..s }));
            assert(self.entities@ =~= old(self).entities@.update(l, self.entities@[l]));
            assert(self.entities@[l]@ == lm1.insert(k, e2));
            assert(lm1 == lm0.remove(k));
            assert(occ_views(self.entities@) =~= pre.entities.update(
                l,
                pre.entities[l].insert(k, e2),
            )) by {
                assert(lm0.remove(k).insert(k, e2) =~= lm0.insert(k, e2));
                assert forall|j: int|
                    0 <= j < occ_views(self.entities@).len() implies occ_views(self.entities@)[j]
                    == pre.entities.update(l, pre.entities[l].insert(k, e2))[j] by {
                    if j != l {
                        assert(self.entities@[j] == old(self).entities@[j]);
                    }
                }
            }
            assert(self.occ_wf()) by {
                assert forall|l2: int, k2: usize|
                    0 <= l2 < self@.entities.len() && (#[trigger] self@.entities[l2].contains_key(
                        k2,
                    )) implies self.occ_slot_wf(l2, k2) by {
                    assert(old(self)@.entities[l2].contains_key(k2));
                    assert(old(self).occ_slot_wf(l2, k2));
                    if l2 == l && k2 == k {
                        assert(self@.entities[l2][k2] == e2);
                    } else {
                        assert(self@.entities[l2][k2] == pre.entities[l2][k2]);
                    }
                }
                assert forall|id: u64| #[trigger]
                    self@.entity_index.contains_key(id) implies {
                    let p = self@.entity_index[id];
                    &&& (p.0 as int) < self@.entities.len()
                    &&& self@.entities[p.0 as int].contains_key(p.1)
                    &&& self@.entities[p.0 as int][p.1].id == id
                } by {
                    assert(pre.entity_index.contains_key(id));
                    let p = pre.entity_index[id];
                    assert(old(self)@.entities[p.0 as int].contains_key(p.1));
                    assert(old(self)@.entities[p.0 as int][p.1].id == id);
                    if p.0 as int == l && p.1 == k {
                        assert(self@.entities[p.0 as int][p.1] == e2);
                    } else {
                        assert(self@.entities[p.0 as int][p.1] == pre.entities[p.0 as int][p.1]);
                    }
                }
            }
        }
        Ok(())
    }

    /// Moves the entity with `e`'s identity to a new tile coordinate and
    /// layer: an atomic remove-then-place.  On success the entity's pixel
    /// position is re-anchored to the foot point of its new tile.  The move
    /// is refused, and the map left exactly as it was, when the entity is not
    /// found at its recorded slot, when the destination coordinate is outside
    /// the map, or when the destination slot is occupied by another entity.
    pub fn set_tile_pos(&mut self, e: &Entity, tile_x: usize, tile_y: usize, layer: usize) -> (r:
        Result<(), MapError>)
        requires
            old(self).wf(),
        ensures
            final(self).wf(),
            final(self)@ == (TileMapView {
                entities: final(self)@.entities,
                entity_index: final(self)@.entity_index,
                ..old(self)@
            }),
            r is Err ==> final(self)@ == old(self)@,
            !old(self).holds_entity(*e) ==> r == Err::<(), MapError>(MapError::NotFound),
            old(self).holds_entity(*e) ==> {
                let l = e.layer as int;
                let k = (e.tile_x + e.tile_y * old(self)@.width) as usize;
                let s = old(self)@.entities[l][k];
                let same_slot = layer == e.layer && tile_x == e.tile_x && tile_y == e.tile_y;
                let k2 = (tile_x + tile_y * old(self)@.width) as usize;
                if !(tile_x < old(self)@.width && tile_y < old(self)@.height) {
                    r == Err::<(), MapError>(MapError::OutOfBounds)
                } else if !same_slot && old(self).occupant(
                    layer as int,
                    tile_x as int,
                    tile_y as int,
                ) is Some {
                    r == Err::<(), MapError>(MapError::Occupied)
                } else {
                    let s2 = Entity {
                        pos: s.spec_teleport_pos(
                            old(self).spec_tile_foot(tile_x as int, tile_y as int),
                        ),
                        tile_x,
                        tile_y,
                        layer,
                        ..s
                    };
                    &&& r == Ok::<(), MapError>(())
                    &&& final(self)@.entities == Self::spec_place(
                        old(self)@.entities.update(l, old(self)@.entities[l].remove(k)),
                        layer as int,
                        k2,
                        s2,
                    )
                    &&& final(self)@.entity_index == old(self)@.entity_index.remove(e.id).insert(
                        e.id,
                        (layer, k2),
                    )
                }
            },
    {
        let removed = self.remove_entity(e);
        let mut ent = match removed {
            Err(err) => {
                return Err(err);
            },
            Ok(ent) => ent,
        };
        let ghost mid = self@;
        let w = self.width as usize;
        let h = self.height as usize;
        if !(tile_x < w && tile_y < h) {
            proof {
                Self::lemma_restore_context(*old(self), ent, *e);
            }
            let res = self.add_entity(ent);
            proof {
                assert(res is Ok);
                Self::lemma_place_back(old(self)@, mid, self@, ent);
            }
            return Err(MapError::OutOfBounds);
        }
        let dest_occupied = match self.entity(tile_x, tile_y, layer) {
            Some(_) => true,
            None => false,
        };
        if dest_occupied {
            proof {
                Self::lemma_restore_context(*old(self), ent, *e);
            }
            let res = self.add_entity(ent);
            proof {
                assert(res is Ok);
                Self::lemma_place_back(old(self)@, mid, self@, ent);
            }
            return Err(MapError::Occupied);
        }
        proof {
            Self::lemma_restore_context(*old(self), ent, *e);
            let w = old(self)@.width;
            let l = e.layer as int;
            let k = (e.tile_x + e.tile_y * w) as usize;
            let k2 = (tile_x + tile_y * w) as usize;
            if !(layer == e.layer && tile_x == e.tile_x && tile_y == e.tile_y) {
                if layer as int == l && k2 == k {
                    let x1 = tile_x as int;
                    let y1 = tile_y as int;
                    let x2 = e.tile_x as int;
                    let y2 = e.tile_y as int;
                    assert(0 <= y1 * w <= 0x4000_0000) by (nonlinear_arith)
                        requires
                            0 <= y1 <= 0x8000,
                            0 < w <= 0x8000,
                    ;
                    assert(0 <= y2 * w <= 0x4000_0000) by (nonlinear_arith)
                        requires
                            0 <= y2 <= 0x8000,
                            0 < w <= 0x8000,
                    ;
                    assert(x1 + y1 * w == x2 + y2 * w);
                    assert(x1 == x2 && y1 == y2) by (nonlinear_arith)
                        requires
                            0 < w,
                            0 <= x1 < w,
                            0 <= x2 < w,
                            0 <= y1,
                            0 <= y2,
                            x1 + y1 * w == x2 + y2 * w,
                    ;
                    assert(false);
                } else {
                    assert(old(self).occupant(layer as int, tile_x as int, tile_y as int)
                        == self.occupant(layer as int, tile_x as int, tile_y as int));
                }
            }
        }
        let ghost s0 = ent;
        proof {
            let tw = self@.tile_w;
            let th = self@.tile_h;
            let tx = tile_x as int;
            let ty = tile_y as int;
            assert(0 <= tw * tx <= 0x1_0000_0000_0000) by (nonlinear_arith)
                requires
                    0 <= tx < 0x10000,
                    0 < tw <= 0x10000,
            ;
            assert(0 <= th * ty <= 0x1_0000_0000_0000) by (nonlinear_arith)
                requires
                    0 <= ty < 0x10000,
                    0 < th <= 0x10000,
            ;
        }
        let foot = self.get_tile_foot(tile_x, tile_y);
        ent.set_pos(Point { x: foot.x - ent.dimensions.x / 2, y: foot.y - ent.dimensions.y });
        ent.tile_x = tile_x;
        ent.tile_y = tile_y;
        ent.layer = layer;
        proof {
            assert(ent == (Entity {
                pos: s0.spec_teleport_pos(old(self).spec_tile_foot(tile_x as int, tile_y as int)),
                tile_x,
                tile_y,
                layer,
                ..s0
            }));
        }
        let res = self.add_entity(ent);
        proof {
            assert(res is Ok);
        }
        Ok(())
    }

    /// Overwrites one cell of one raw layer.
    fn set_cell(&mut self, layer: usize, x: usize, y: usize, v: u32)
        requires
            old(self).wf(),
            layer < old(self)@.layers.len(),
            x < old(self)@.width,
            y < old(self)@.height,
        ensures
            final(self).wf(),
            final(self)@ == (TileMapView {
                layers: cell_write(old(self)@.layers, layer as int, x as int, y as int, v),
                ..old(self)@
            }),
    {
        proof {
            assert(self@.layers[layer as int] == grid_of(self.layers@[layer as int]));
            assert(grid_wf(self@.layers[layer as int], self@.width, self@.height));
            assert(self.layers@[layer as int].tiles@.len() == self@.height);
            assert(self@.layers[layer as int][y as int] == self.layers@[layer as int].tiles@[
                y as int]@);
        }
        let mut lobj = self.layers.remove(layer);
        let mut row = lobj.tiles.remove(y);
        row.set(x, v);
        lobj.tiles.insert(y, row);
        self.layers.insert(layer, lobj);
        proof {
            let l = layer as int;
            let pre = old(self)@;
            let target = cell_write(pre.layers, l, x as int, y as int, v);
            assert(self.layers@ =~= old(self).layers@.update(l, self.layers@[l]));
            assert(self.layers@[l].tiles@ =~= old(self).layers@[l].tiles@.update(
                y as int,
                self.layers@[l].tiles@[y as int],
            ));
            assert(self.layers@[l].tiles@[y as int]@ == old(self).layers@[l].tiles@[y as int]@
                .update(x as int, v));
            assert(layer_views(self.layers@) =~~= target) by {
                assert forall|j: int|
                    0 <= j < layer_views(self.layers@).len() implies layer_views(self.layers@)[j]
                    =~= target[j] by {
                    assert(layer_views(self.layers@)[j] == grid_of(self.layers@[j]));
                    if j == l {
                        assert forall|y2: int|
                            0 <= y2 < grid_of(self.layers@[j]).len() implies grid_of(
                            self.layers@[j],
                        )[y2] == target[j][y2] by {
                            assert(grid_of(self.layers@[j])[y2] == self.layers@[j].tiles@[y2]@);
                            if y2 != y as int {
                                assert(self.layers@[j].tiles@[y2] == old(self).layers@[j].tiles@[
                                    y2]);
                            }
                        }
                        assert(grid_of(self.layers@[j]) =~= target[j]);
                    } else {
                        assert(self.layers@[j] == old(self).layers@[j]);
                    }
                }
            }
            assert(self.geometry_wf()) by {
                assert forall|j: int| 0 <= j < self@.layers.len() implies grid_wf(
                    #[trigger] self@.layers[j],
                    self@.width,
                    self@.height,
                ) by {
                    assert(grid_wf(pre.layers[j], pre.width, pre.height));
                    if j == l {
                        assert(self@.layers[j] =~= target[j]);
                    }
                }
            }
        }
    }

    /// Overwrites the base tile of logical layer `layer` at `(x, y)`, its
    /// decoration tile when `detail` is given, and, when `collision` is set
    /// and a blocking tile is configured, writes the blocking tile id into
    /// the collision sub-layer.  This can set but never clear a blocking
    /// tile.
    pub fn write_tile(
        &mut self,
        x: usize,
        y: usize,
        layer: usize,
        tile: u32,
        detail: Option<u32>,
        collision: bool,
    )
        requires
            old(self).wf(),
            x < old(self)@.width,
            y < old(self)@.height,
            3 * layer + 2 < old(self)@.layers.len(),
        ensures
            final(self).wf(),
            final(self)@ == (TileMapView { layers: final(self)@.layers, ..old(self)@ }),
            final(self)@.layers == spec_write_tile(
                old(self)@.layers,
                layer as int,
                x as int,
                y as int,
                tile,
                detail,
                collision,
                old(self)@.blocking_tile,
            ),
    {
        let layer_len = self.layers.len();
        proof {
            assert(self@.layers.len() == layer_len as int);
        }
        let base = layer * 3;
        self.set_cell(base, x, y, tile);
        if let Some(d) = detail {
            self.set_cell(base + 1, x, y, d);
        }
        if collision {
            if let Some(blocking_tile) = self.blocking_tile {
                self.set_cell(base + 2, x, y, blocking_tile);
            }
        }
    }

    /// The draw instruction for one visible tile: the source rectangle is
    /// `uvs[tile - 1]` (tile ids are 1-based; 0 means empty), the destination
    /// is the tile's pixel position relative to the camera.
    pub fn tile_draw_params(&self, uvs: &Vec<Rect>, tile_x: usize, tile_y: usize, tile: usize) -> (r:
        DrawParam)
        requires
            self.wf(),
            tile_x < self.spec_width(),
            tile_y < self.spec_height(),
            1 <= tile <= uvs@.len(),
        ensures
            r.src == uvs@[tile - 1],
            r.dest == (Point {
                x: (self@.pos.x + self@.tile_w * tile_x - self@.camera.x) as i64,
                y: (self@.pos.y + self@.tile_h * tile_y - self@.camera.y) as i64,
            }),
    {
        proof {
            let tw = self@.tile_w;
            let th = self@.tile_h;
            let tx = tile_x as int;
            let ty = tile_y as int;
            assert(0 <= tw * tx <= 0x1_0000_0000_0000) by (nonlinear_arith)
                requires
                    0 <= tx < 0x10000,
                    0 < tw <= 0x10000,
            ;
            assert(0 <= th * ty <= 0x1_0000_0000_0000) by (nonlinear_arith)
                requires
                    0 <= ty < 0x10000,
                    0 < th <= 0x10000,
            ;
        }
        let tw = self.tile_width as i64;
        let th = self.tile_height as i64;
        let x = self.pos.x + tw * (tile_x as i64);
        let y = self.pos.y + th * (tile_y as i64);
        let uv = uvs[tile - 1];
        DrawParam { src: uv, dest: Point { x: x - self.camera.x, y: y - self.camera.y } }
    }

    /// The entities stored in one layer, in row-major tile order.  `None`
    /// for a layer the occupancy index has never used.
    pub fn entities_of_layer(&self, layer: usize) -> (r: Option<Vec<Entity>>)
        requires
            self.wf(),
        ensures
            match r {
                None => layer >= self@.entities.len(),
                Some(v) => {
                    &&& layer < self@.entities.len()
                    &&& forall|i: int| 0 <= i < v@.len() ==> (#[trigger] v@[i]).layer == layer
                        && self.occupant(layer as int, v@[i].tile_x as int, v@[i].tile_y as int)
                        == Some(v@[i])
                    &&& forall|x: int, y: int|
                        0 <= x < self@.width && 0 <= y < self@.height && (#[trigger] self.occupant(
                            layer as int,
                            x,
                            y,
                        )) is Some ==> exists|i: int|
                            0 <= i < v@.len() && v@[i] == self.occupant(
                                layer as int,
                                x,
                                y,
                            ).unwrap()
                    &&& forall|i: int, j: int|
                        0 <= i < j < v@.len() ==> !((#[trigger] v@[i]).tile_x == (
                        #[trigger] v@[j]).tile_x && v@[i].tile_y == v@[j].tile_y)
                },
            },
    {
        if layer >= self.entities.len() {
            return None;
        }
        let w = self.width as usize;
        let h = self.height as usize;
        let mut v: Vec<Entity> = Vec::new();
        let mut y0: usize = 0;
        while y0 < h
            invariant
                self.wf(),
                layer < self@.entities.len(),
                w == self@.width,
                h == self@.height,
                0 <= y0 <= h,
                forall|i: int| 0 <= i < v@.len() ==> (#[trigger] v@[i]).layer == layer
                    && self.occupant(layer as int, v@[i].tile_x as int, v@[i].tile_y as int)
                    == Some(v@[i]),
                forall|x: int, y: int|
                    0 <= x < self@.width && 0 <= y < y0 && (#[trigger] self.occupant(
                        layer as int,
                        x,
                        y,
                    )) is Some ==> exists|i: int|
                        0 <= i < v@.len() && v@[i] == self.occupant(layer as int, x, y).unwrap(),
                forall|i: int| 0 <= i < v@.len() ==> (#[trigger] v@[i]).tile_y < y0,
                forall|i: int, j: int|
                    0 <= i < j < v@.len() ==> !((#[trigger] v@[i]).tile_x == (#[trigger] v@[
                    j]).tile_x && v@[i].tile_y == v@[j].tile_y),
            decreases h - y0,
        {
            let mut x0: usize = 0;
            while x0 < w
                invariant
                    self.wf(),
                    layer < self@.entities.len(),
                    w == self@.width,
                    h == self@.height,
                    0 <= y0 < h,
                    0 <= x0 <= w,
                    forall|i: int| 0 <= i < v@.len() ==> (#[trigger] v@[i]).layer == layer
                        && self.occupant(layer as int, v@[i].tile_x as int, v@[i].tile_y as int)
                        == Some(v@[i]),
                    forall|x: int, y: int|
                        0 <= x < self@.width && ((0 <= y < y0) || (y == y0 && 0 <= x < x0)) && (
                        #[trigger] self.occupant(layer as int, x, y)) is Some ==> exists|i: int|
                            0 <= i < v@.len() && v@[i] == self.occupant(
                                layer as int,
                                x,
                                y,
                            ).unwrap(),
                    forall|i: int|
                        0 <= i < v@.len() ==> ((#[trigger] v@[i]).tile_y < y0 || (v@[i].tile_y
                            == y0 && v@[i].tile_x < x0)),
                    forall|i: int, j: int|
                        0 <= i < j < v@.len() ==> !((#[trigger] v@[i]).tile_x == (#[trigger] v@[
                        j]).tile_x && v@[i].tile_y == v@[j].tile_y),
                decreases w - x0,
            {
                let found = match self.entity(x0, y0, layer) {
                    Some(e) => Some(*e),
                    None => None,
                };
                if let Some(e) = found {
                    proof {
                        let wi = self@.width;
                        let xi = x0 as int;
                        let yi = y0 as int;
                        assert(0 <= yi * wi <= 0x4000_0000) by (nonlinear_arith)
                            requires
                                0 <= yi <= 0x8000,
                                0 < wi <= 0x8000,
                        ;
                        let k = (xi + yi * wi) as usize;
                        assert(self@.entities[layer as int].contains_key(k));
                        assert(self.occ_slot_wf(layer as int, k));
                        assert(e.tile_x + e.tile_y * wi == xi + yi * wi);
                        lemma_flat_index_unique(wi, e.tile_x as int, e.tile_y as int, xi, yi);
                        assert(e.tile_x == x0 && e.tile_y == y0);
                    }
                    let ghost v_old = v@;
                    v.push(e);
                    proof {
                        assert forall|x: int, y: int|
                            0 <= x < self@.width && ((0 <= y < y0) || (y == y0 && 0 <= x < x0
                                + 1)) && (#[trigger] self.occupant(layer as int, x, y))
                                is Some implies exists|i: int|
                            0 <= i < v@.len() && v@[i] == self.occupant(
                                layer as int,
                                x,
                                y,
                            ).unwrap() by {
                            if y == y0 as int && x == x0 as int {
                                assert(v@[v@.len() - 1] == self.occupant(
                                    layer as int,
                                    x,
                                    y,
                                ).unwrap());
                            } else {
                                let i = choose|i: int|
                                    0 <= i < v_old.len() && v_old[i] == self.occupant(
                                        layer as int,
                                        x,
                                        y,
                                    ).unwrap();
                                assert(v@[i] == self.occupant(layer as int, x, y).unwrap());
                            }
                        }
                        assert forall|i: int, j: int|
                            0 <= i < j < v@.len() implies !((#[trigger] v@[i]).tile_x == (
                        #[trigger] v@[j]).tile_x && v@[i].tile_y == v@[j].tile_y) by {
                            if j == v@.len() - 1 {
                                assert(v@[i] == v_old[i]);
                                assert(v@[j] == e);
                            } else {
                                assert(v@[i] == v_old[i] && v@[j] == v_old[j]);
                            }
                        }
                    }
                }
                x0 = x0 + 1;
            }
            y0 = y0 + 1;
        }
        Some(v)
    }
}

/// The flattened index of two in-bounds tile coordinates coincides only when
/// the coordinates do.
proof fn lemma_flat_index_unique(w: int, x1: int, y1: int, x2: int, y2: int)
    requires
        0 < w,
        0 <= x1 < w,
        0 <= x2 < w,
        0 <= y1,
        0 <= y2,
        x1 + y1 * w == x2 + y2 * w,
    ensures
        x1 == x2,
        y1 == y2,
{
    assert(x1 == x2 && y1 == y2) by (nonlinear_arith)
        requires
            0 < w,
            0 <= x1 < w,
            0 <= x2 < w,
            0 <= y1,
            0 <= y2,
            x1 + y1 * w == x2 + y2 * w,
    ;
}

/// The UV table of one tileset of a parsed map: one source rectangle per
/// tile of the tileset's image.
pub fn uvs_from_tiled(map_def: &TileMapData, tileset_id: usize) -> (r: Vec<Rect>)
    requires
        map_def.valid(),
        tileset_id < map_def.tilesets@.len(),
        0 <= map_def.tilesets@[tileset_id as int].image_width <= 0x10_0000,
        0 <= map_def.tilesets@[tileset_id as int].image_height <= 0x10_0000,
    ensures
        r@ == crate::util::spec_uvs(
            map_def.tilesets@[tileset_id as int].image_width as int,
            map_def.tilesets@[tileset_id as int].image_height as int,
            map_def.tilesets@[tileset_id as int].tile_width as int,
            map_def.tilesets@[tileset_id as int].tile_height as int,
        ),
{
    let ts = &map_def.tilesets[tileset_id];
    crate::util::generate_uvs(
        ts.image_width,
        ts.image_height,
        ts.tile_width as i64,
        ts.tile_height as i64,
    )
}

/// Bounds on a tile-times-pixel product, shared by the coordinate lemmas.
proof fn lemma_tile_mul_bounds(d: int, n: int)
    requires
        0 < d <= MAX_TILE_DIM,
        0 <= n <= MAX_MAP_DIM,
    ensures
        0 <= d * n <= 0x1_0000_0000_0000,
        n > 0 ==> d <= d * n,
{
    assert(0 <= d * n <= 0x1_0000_0000_0000) by (nonlinear_arith)
        requires
            0 < d <= 0x10000,
            0 <= n <= 0x8000,
    ;
    assert(n > 0 ==> d <= d * n) by (nonlinear_arith)
        requires
            0 < d,
            0 <= n,
    ;
}

/// Any point at or beyond an edge of the map's pixel extent is mapped by
/// `point_to_tile` to the boundary tile of that edge: queries are clamped,
/// never an error.
pub proof fn lemma_point_to_tile_clamps(m: TileMap, x: int, y: int)
    requires
        m.wf(),
    ensures
        x <= m@.pos.x ==> m.spec_point_to_tile(x, y).0 == 0,
        x >= m@.pos.x + m.spec_pixel_w() - 1 ==> m.spec_point_to_tile(x, y).0 == m.spec_width()
            - 1,
        y <= m@.pos.y ==> m.spec_point_to_tile(x, y).1 == 0,
        y >= m@.pos.y + m.spec_pixel_h() - 1 ==> m.spec_point_to_tile(x, y).1 == m.spec_height()
            - 1,
{
    let w = m.spec_width();
    let h = m.spec_height();
    let tw = m.spec_tile_w();
    let th = m.spec_tile_h();
    lemma_tile_mul_bounds(tw, w);
    lemma_tile_mul_bounds(th, h);
    assert(tw * w == w * tw) by (nonlinear_arith);
    assert(th * h == h * th) by (nonlinear_arith);
    if x <= m@.pos.x {
        vstd::arithmetic::div_mod::lemma_basic_div(0, tw);
    }
    if x >= m@.pos.x + m.spec_pixel_w() - 1 {
        let dx = w * tw - 1;
        vstd::arithmetic::div_mod::lemma_multiply_divide_lt(dx, tw, w);
        assert(tw * (w - 1) == tw * w - tw) by (nonlinear_arith);
        vstd::arithmetic::div_mod::lemma_div_by_multiple(w - 1, tw);
        assert((w - 1) * tw == tw * (w - 1)) by (nonlinear_arith);
        vstd::arithmetic::div_mod::lemma_div_is_ordered(tw * (w - 1), dx, tw);
    }
    if y <= m@.pos.y {
        vstd::arithmetic::div_mod::lemma_basic_div(0, th);
    }
    if y >= m@.pos.y + m.spec_pixel_h() - 1 {
        let dy = h * th - 1;
        vstd::arithmetic::div_mod::lemma_multiply_divide_lt(dy, th, h);
        assert(th * (h - 1) == th * h - th) by (nonlinear_arith);
        vstd::arithmetic::div_mod::lemma_div_by_multiple(h - 1, th);
        assert((h - 1) * th == th * (h - 1)) by (nonlinear_arith);
        vstd::arithmetic::div_mod::lemma_div_is_ordered(th * (h - 1), dy, th);
    }
}

/// What `point_to_tile` makes of a tile's foot point.  The x component comes
/// back unchanged: the foot sits at the tile's horizontal centre.  The foot's
/// y coordinate is the tile's exclusive bottom edge, which already belongs to
/// the row below, so the y component comes back as the next row, clamped to
/// the last row of the map.
pub proof fn lemma_tile_foot_round_trip(m: TileMap, x: int, y: int)
    requires
        m.wf(),
        0 <= x < m.spec_width(),
        0 <= y < m.spec_height(),
    ensures
        ({
            let foot = m.spec_tile_foot(x, y);
            &&& m.spec_point_to_tile(foot.x as int, foot.y as int).0 == x
            &&& m.spec_point_to_tile(foot.x as int, foot.y as int).1 == (if y < m.spec_height()
                - 1 {
                y + 1
            } else {
                y
            })
        }),
{
    let w = m.spec_width();
    let h = m.spec_height();
    let tw = m.spec_tile_w();
    let th = m.spec_tile_h();
    lemma_tile_mul_bounds(tw, w);
    lemma_tile_mul_bounds(th, h);
    lemma_tile_mul_bounds(tw, x);
    lemma_tile_mul_bounds(th, y);
    assert(tw * x + tw / 2 <= tw * w - 1) by (nonlinear_arith)
        requires
            0 < tw,
            0 <= x < w,
    ;
    assert(0 <= tw * x + tw / 2) by (nonlinear_arith)
        requires
            0 < tw,
            0 <= x,
    ;
    assert(tw * w == w * tw) by (nonlinear_arith);
    assert(th * h == h * th) by (nonlinear_arith);
    let fx = m@.pos.x + tw * x + tw / 2;
    let fy = m@.pos.y + th * y + th;
    assert(m.spec_tile_foot(x, y).x == fx);
    assert(m.spec_tile_foot(x, y).y == fy);
    vstd::arithmetic::div_mod::lemma_div_multiples_vanish_fancy(x, tw / 2, tw);
    assert((tw * x + tw / 2) / tw == x);
    if y < h - 1 {
        assert(th * y + th == th * (y + 1)) by (nonlinear_arith);
        assert(th * (y + 1) <= th * h - th) by (nonlinear_arith)
            requires
                0 < th,
                y + 1 <= h - 1,
        ;
        vstd::arithmetic::div_mod::lemma_div_multiples_vanish(y + 1, th);
    } else {
        assert(th * y + th == th * h) by (nonlinear_arith)
            requires
                y == h - 1,
        ;
        let dy = h * th - 1;
        vstd::arithmetic::div_mod::lemma_multiply_divide_lt(dy, th, h);
        assert(th * (h - 1) == th * h - th) by (nonlinear_arith);
        vstd::arithmetic::div_mod::lemma_div_by_multiple(h - 1, th);
        assert((h - 1) * th == th * (h - 1)) by (nonlinear_arith);
        vstd::arithmetic::div_mod::lemma_div_is_ordered(th * (h - 1), dy, th);
    }
}

/// On the bottom row of the map the round trip through the foot anchor is
/// the identity: `point_to_tile(tile_foot(x, h - 1)) == (x, h - 1)`.
pub proof fn lemma_tile_foot_round_trip_bottom_row(m: TileMap, x: int)
    requires
        m.wf(),
        0 <= x < m.spec_width(),
    ensures
        ({
            let y = m.spec_height() - 1;
            let foot = m.spec_tile_foot(x, y);
            m.spec_point_to_tile(foot.x as int, foot.y as int) == (x, y)
        }),
{
    lemma_tile_foot_round_trip(m, x, m.spec_height() - 1);
}

} // verus!
