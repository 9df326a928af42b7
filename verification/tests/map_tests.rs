use tilecore::common::Point;
use tilecore::entity::Entity;
use tilecore::map::{uvs_from_tiled, MapError, TileLayer, TileMap, TileMapData, TilesetData};

// A 4 by 3 map of 16 by 16 tiles with one logical layer (base, decoration,
// collision) and a collision tileset whose first gid is 9.  The collision
// sub-layer blocks tile (1, 1).
fn sample_data() -> TileMapData {
    let base = vec![
        vec![1, 2, 3, 4],
        vec![5, 6, 7, 8],
        vec![1, 1, 1, 1],
    ];
    let deco = vec![
        vec![0, 0, 0, 0],
        vec![0, 4, 0, 0],
        vec![0, 0, 0, 0],
    ];
    let coll = vec![
        vec![0, 0, 0, 0],
        vec![0, 9, 0, 0],
        vec![0, 0, 0, 0],
    ];
    let atlas = TilesetData {
        first_gid: 1,
        name: b"atlas".to_vec(),
        tile_width: 16,
        tile_height: 16,
        image_width: 64,
        image_height: 64,
    };
    let collision = TilesetData {
        first_gid: 9,
        name: b"collision_graphic".to_vec(),
        tile_width: 16,
        tile_height: 16,
        image_width: 16,
        image_height: 16,
    };
    TileMapData {
        width: 4,
        height: 3,
        layers: vec![
            TileLayer { tiles: base },
            TileLayer { tiles: deco },
            TileLayer { tiles: coll },
        ],
        tilesets: vec![atlas, collision],
    }
}

fn sample_map() -> TileMap {
    TileMap::new(sample_data(), 0, 0)
}

fn entity_at(id: u64, x: usize, y: usize) -> Entity {
    let mut e = Entity::new(id, Point { x: 8, y: 16 });
    e.tile_x = x;
    e.tile_y = y;
    e
}

#[test]
fn validate_accepts_sample() {
    assert!(sample_data().validate());
}

#[test]
fn validate_rejects_ragged_grid() {
    let mut data = sample_data();
    data.layers[1].tiles[2].pop();
    assert!(!data.validate());
}

#[test]
fn tiles_and_layers() {
    let m = sample_map();
    assert_eq!(m.get_tile(2, 1, 0), 7);
    assert_eq!(m.get_tile(1, 1, 1), 4);
    assert_eq!(m.layer_count(), 1);
    assert_eq!(m.coord_to_index(3, 2), 11);
}

#[test]
fn blocking_comes_from_the_collision_layer() {
    let m = sample_map();
    assert!(m.is_blocked(0, 1, 1));
    assert!(!m.is_blocked(0, 0, 0));
    assert!(!m.is_blocked(0, 2, 1));
}

#[test]
fn point_to_tile_inside_and_clamped() {
    let m = sample_map();
    assert_eq!(m.point_to_tile(33, 20), (2, 1));
    assert_eq!(m.point_to_tile(0, 0), (0, 0));
    // out-of-range points land on the nearest boundary tile, never an error
    assert_eq!(m.point_to_tile(-5, -7), (0, 0));
    assert_eq!(m.point_to_tile(1000, 1000), (3, 2));
    assert_eq!(m.point_to_tile(-5, 20), (0, 1));
    assert_eq!(m.point_to_tile(33, 1000), (2, 2));
}

#[test]
fn tile_foot_and_round_trip() {
    let m = sample_map();
    let foot = m.get_tile_foot(2, 1);
    assert_eq!(foot, Point { x: 40, y: 32 });
    // the foot's y is the tile's exclusive bottom edge, so the round trip
    // comes back one row further down...
    assert_eq!(m.point_to_tile(foot.x, foot.y), (2, 2));
    // ...except on the bottom row, where clamping makes it the identity.
    let foot_bottom = m.get_tile_foot(2, 2);
    assert_eq!(foot_bottom, Point { x: 40, y: 48 });
    assert_eq!(m.point_to_tile(foot_bottom.x, foot_bottom.y), (2, 2));
}

#[test]
fn write_tile_sets_all_three_sublayers() {
    let mut m = sample_map();
    m.write_tile(0, 0, 0, 7, Some(8), true);
    assert_eq!(m.get_tile(0, 0, 0), 7);
    assert_eq!(m.get_tile(0, 0, 1), 8);
    assert_eq!(m.get_tile(0, 0, 2), 9);
    assert!(m.is_blocked(0, 0, 0));
}

#[test]
fn write_tile_cannot_clear_collision() {
    let mut m = sample_map();
    assert!(m.is_blocked(0, 1, 1));
    m.write_tile(1, 1, 0, 2, None, false);
    // the collision sub-layer is untouched: still blocked
    assert!(m.is_blocked(0, 1, 1));
}

#[test]
fn add_entity_and_query() {
    let mut m = sample_map();
    assert_eq!(m.add_entity(entity_at(1, 1, 0)), Ok(()));
    let found = m.entity(1, 0, 0).expect("entity should be stored");
    assert_eq!(found.id, 1);
    assert!(m.entity(0, 0, 0).is_none());
    assert!(m.entity(1, 0, 1).is_none());
}

#[test]
fn second_placement_on_same_tile_fails() {
    let mut m = sample_map();
    assert_eq!(m.add_entity(entity_at(1, 2, 1)), Ok(()));
    assert_eq!(m.add_entity(entity_at(2, 2, 1)), Err(MapError::Occupied));
    // the first occupant is untouched
    assert_eq!(m.entity(2, 1, 0).unwrap().id, 1);
}

#[test]
fn add_entity_rejects_out_of_bounds_and_reused_ids() {
    let mut m = sample_map();
    assert_eq!(m.add_entity(entity_at(1, 9, 0)), Err(MapError::OutOfBounds));
    assert_eq!(m.add_entity(entity_at(1, 0, 7)), Err(MapError::OutOfBounds));
    assert_eq!(m.add_entity(entity_at(1, 0, 0)), Ok(()));
    assert_eq!(m.add_entity(entity_at(1, 1, 0)), Err(MapError::IdInUse));
}

#[test]
fn remove_entity_by_identity() {
    let mut m = sample_map();
    let e = entity_at(1, 1, 0);
    assert_eq!(m.add_entity(e), Ok(()));
    let removed = m.remove_entity(&e).expect("removal should succeed");
    assert_eq!(removed.id, 1);
    assert!(m.entity(1, 0, 0).is_none());
    // removing again: nothing there any more
    assert_eq!(m.remove_entity(&e), Err(MapError::NotFound));
}

#[test]
fn remove_entity_checks_identity() {
    let mut m = sample_map();
    assert_eq!(m.add_entity(entity_at(1, 1, 0)), Ok(()));
    // same slot, wrong id: refused, occupant stays
    let impostor = entity_at(2, 1, 0);
    assert_eq!(m.remove_entity(&impostor), Err(MapError::NotFound));
    assert_eq!(m.entity(1, 0, 0).unwrap().id, 1);
}

#[test]
fn move_entity_repositions_the_anchor() {
    let mut m = sample_map();
    let e = entity_at(1, 0, 0);
    assert_eq!(m.add_entity(e), Ok(()));
    assert_eq!(m.set_tile_pos(&e, 2, 1, 0), Ok(()));
    assert!(m.entity(0, 0, 0).is_none());
    let moved = m.entity(2, 1, 0).expect("entity should have moved");
    assert_eq!(moved.id, 1);
    assert_eq!(moved.tile_x, 2);
    assert_eq!(moved.tile_y, 1);
    // foot of (2, 1) is (40, 32); footprint 8 by 16 centres the box on it
    assert_eq!(moved.pos, Point { x: 36, y: 16 });
}

#[test]
fn move_to_occupied_tile_fails_and_leaves_entity() {
    let mut m = sample_map();
    let mover = entity_at(1, 0, 0);
    assert_eq!(m.add_entity(mover), Ok(()));
    assert_eq!(m.add_entity(entity_at(2, 2, 1)), Ok(()));
    // destination already holds entity 2: rejected, no partial move
    assert_eq!(m.set_tile_pos(&mover, 2, 1, 0), Err(MapError::Occupied));
    assert_eq!(m.entity(0, 0, 0).unwrap().id, 1);
    assert_eq!(m.entity(2, 1, 0).unwrap().id, 2);
}

#[test]
fn move_of_absent_entity_fails() {
    let mut m = sample_map();
    let ghostly = entity_at(5, 0, 0);
    assert_eq!(m.set_tile_pos(&ghostly, 1, 1, 0), Err(MapError::NotFound));
}

#[test]
fn entities_listed_per_layer() {
    let mut m = sample_map();
    assert_eq!(m.add_entity(entity_at(1, 1, 0)), Ok(()));
    assert_eq!(m.add_entity(entity_at(2, 2, 1)), Ok(()));
    let listed = m.entities_of_layer(0).expect("layer 0 exists");
    let ids: Vec<u64> = listed.iter().map(|e| e.id).collect();
    assert_eq!(ids, vec![1, 2]);
    assert!(m.entities_of_layer(5).is_none());
}

#[test]
fn draw_params_follow_the_camera() {
    let data = sample_data();
    let uvs = uvs_from_tiled(&data, 0);
    assert_eq!(uvs.len(), 16);
    let mut m = TileMap::new(data, 0, 0);
    let p = m.tile_draw_params(&uvs, 1, 1, 5);
    // tile id 5 is uv index 4: second row, first column of the atlas
    assert_eq!(p.src.x, 0);
    assert_eq!(p.src.y, 16);
    assert_eq!(p.dest, Point { x: 16, y: 16 });
    m.goto_tile(1, 1);
    let p2 = m.tile_draw_params(&uvs, 1, 1, 5);
    assert_eq!(p2.dest, Point { x: -8, y: -8 });
    m.goto(Point { x: 0, y: 4 });
    let p3 = m.tile_draw_params(&uvs, 1, 1, 5);
    assert_eq!(p3.dest, Point { x: 16, y: 12 });
}

#[test]
fn entity_frame_updated_in_place() {
    let mut m = sample_map();
    assert_eq!(m.add_entity(entity_at(1, 1, 0)), Ok(()));
    assert_eq!(m.set_entity_frame(1, 0, 0, 5), Ok(()));
    let e = m.entity(1, 0, 0).unwrap();
    assert_eq!(e.frame, 5);
    assert_eq!(e.id, 1);
    // the slot and identity are untouched, only the frame changed
    assert_eq!(e.tile_x, 1);
    assert_eq!(e.tile_y, 0);
    // an empty slot is refused
    assert_eq!(m.set_entity_frame(2, 2, 0, 9), Err(MapError::NotFound));
}
