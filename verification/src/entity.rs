//! A positioned, sized game object with a facing/frame and tile-coordinate
//! bookkeeping; it teleports to tile-foot-aligned pixel positions.

use vstd::prelude::*;

use crate::common::Point;
use crate::map::TileMap;

verus! {

/// Largest accepted entity footprint edge, in pixels.
pub const MAX_ENTITY_DIM: i64 = 65536;

/// A game object that occupies one tile of a map layer.
///
/// `pos` is the pixel position of the top-left corner of its bounding box;
/// after a `teleport` it is aligned so that the box's bottom-centre sits on
/// the foot point of the entity's tile.
#[derive(PartialEq, Eq, Structural, Debug, Clone, Copy)]
pub struct Entity {
    pub id: u64,
    pub pos: Point,
    pub dimensions: Point,
    pub tile_x: usize,
    pub tile_y: usize,
    pub layer: usize,
    pub frame: usize,
}

impl Entity {
    /// An entity's footprint is non-negative and bounded.
    pub open spec fn wf(&self) -> bool {
        &&& 0 <= self.dimensions.x <= MAX_ENTITY_DIM
        &&& 0 <= self.dimensions.y <= MAX_ENTITY_DIM
    }

    /// Creates an entity with the given footprint at tile (0, 0) of layer 0.
    pub fn new(id: u64, dimensions: Point) -> (r: Entity)
        requires
            0 <= dimensions.x <= MAX_ENTITY_DIM,
            0 <= dimensions.y <= MAX_ENTITY_DIM,
        ensures
            r == (Entity {
                id,
                pos: Point { x: 0, y: 0 },
                dimensions,
                tile_x: 0,
                tile_y: 0,
                layer: 0,
                frame: 0,
            }),
            r.wf(),
    {
        Entity {
            id,
            pos: Point { x: 0, y: 0 },
            dimensions,
            tile_x: 0,
            tile_y: 0,
            layer: 0,
            frame: 0,
        }
    }

    /// The pixel position of the top-left corner of the bounding box.
    pub fn pos(&self) -> (r: Point)
        ensures
            r == self.pos,
    {
        self.pos
    }

    /// The map layer this entity lives on.
    pub fn layer(&self) -> (r: usize)
        ensures
            r == self.layer,
    {
        self.layer
    }

    /// The x tile coordinate.
    pub fn tile_x(&self) -> (r: usize)
        ensures
            r == self.tile_x,
    {
        self.tile_x
    }

    /// The y tile coordinate.
    pub fn tile_y(&self) -> (r: usize)
        ensures
            r == self.tile_y,
    {
        self.tile_y
    }

    /// Records the desired animation/orientation frame.
    pub fn set_frame(&mut self, frame: usize)
        ensures
            *final(self) == (Entity { frame, ..*old(self) }),
    {
        self.frame = frame;
    }

    /// Moves the bounding box to the given pixel position.
    pub fn set_pos(&mut self, pos: Point)
        ensures
            *final(self) == (Entity { pos, ..*old(self) }),
    {
        self.pos = pos;
    }

    /// Where `teleport` puts the bounding box for a given foot point: the
    /// box's bottom-centre lands on the foot point.
    pub open spec fn spec_teleport_pos(&self, foot: Point) -> Point {
        Point {
            x: (foot.x - self.dimensions.x / 2) as i64,
            y: (foot.y - self.dimensions.y) as i64,
        }
    }

    /// Pure geometry helper: aligns this entity's bounding box to the foot
    /// point of the given tile and records the tile coordinate.  It neither
    /// consults nor updates the map's occupancy index; `set_tile_pos` on the
    /// map is responsible for that.
    pub fn teleport(&mut self, tile_x: usize, tile_y: usize, map: &TileMap)
        requires
            old(self).wf(),
            map.wf(),
            tile_x < map.spec_width(),
            tile_y < map.spec_height(),
        ensures
            *final(self) == (Entity {
                pos: old(self).spec_teleport_pos(map.spec_tile_foot(tile_x as int, tile_y as int)),
                tile_x,
                tile_y,
                ..*old(self)
            }),
    {
        proof {
            let tw = map@.tile_w;
            let th = map@.tile_h;
            let tx = tile_x as int;
            let ty = tile_y as int;
            assert(0 <= tw * tx <= 0x1_0000_0000_0000) by (nonlinear_arith)
                requires
                    0 <= tx < 0x10000,
                    0 < tw <= 0x10000,
            ;
            assert(0 <= th * ty <= 0x1_0000_0000_0000) by (nonlinear_arith)
                requires
                    0 <= ty < 0x10000,
                    0 < th <= 0x10000,
            ;
        }
        let foot = map.get_tile_foot(tile_x, tile_y);
        self.pos = Point { x: foot.x - self.dimensions.x / 2, y: foot.y - self.dimensions.y };
        self.tile_x = tile_x;
        self.tile_y = tile_y;
    }
}

} // verus!
