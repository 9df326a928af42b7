use tilecore::map::{TileLayer, TileMap, TileMapData, TilesetData};

pub static EXAMPLE_CONF: &'static str = r#"
<?xml version="1.0" encoding="UTF-8"?>
<map version="1.0" tiledversion="1.1.6" orientation="orthogonal" renderorder="right-down" width="8" height="7" tilewidth="32" tileheight="32" infinite="0" nextobjectid="1">
 <tileset firstgid="1" name="atlas" tilewidth="32" tileheight="32" tilecount="256" columns="16">
  <image source="../../../../../Downloads/examples_explore/tilemap-12-solution/atlas.png" width="512" height="512"/>
 </tileset>
 <layer name="Tile Layer 1" width="8" height="7">
  <data encoding="csv">
1,1,1,5,7,1,1,1,
1,1,1,5,7,1,2,3,
1,1,1,5,7,1,5,6,
1,1,1,5,7,1,5,6,
1,1,2,11,7,1,5,6,
1,1,5,6,7,1,8,9,
1,1,5,6,7,1,1,1
</data>
 </layer>
</map>
"#;

// What the unverified loader keeps of a parsed map before it is validated
// and handed to the library.
fn convert(m: &tiled::Map) -> TileMapData {
    let layers = m
        .layers
        .iter()
        .map(|l| TileLayer {
            tiles: match &l.tiles {
                tiled::LayerData::Finite(rows) => rows
                    .iter()
                    .map(|row| row.iter().map(|t| t.gid).collect())
                    .collect(),
                tiled::LayerData::Infinite(_) => Vec::new(),
            },
        })
        .collect();
    let tilesets = m
        .tilesets
        .iter()
        .map(|t| TilesetData {
            first_gid: t.first_gid,
            name: t.name.clone().into_bytes(),
            tile_width: t.tile_width,
            tile_height: t.tile_height,
            image_width: t.images.first().map_or(0, |i| i.width as i64),
            image_height: t.images.first().map_or(0, |i| i.height as i64),
        })
        .collect();
    TileMapData {
        width: m.width,
        height: m.height,
        layers,
        tilesets,
    }
}

#[test]
fn parse_string() {
    let parsed = tiled::parse(EXAMPLE_CONF.trim_start().as_bytes()).unwrap();
    let map = convert(&parsed);
    assert!(map.validate());
    assert_eq!(map.width, 8);
    assert_eq!(map.height, 7);
    assert_eq!(map.layers.len(), 1);
    assert_eq!(map.layers[0].tiles[0], vec![1, 1, 1, 5, 7, 1, 1, 1]);
    assert_eq!(map.layers[0].tiles[4][3], 11);
    assert_eq!(map.tilesets.len(), 1);
    assert_eq!(map.tilesets[0].first_gid, 1);
    assert_eq!(map.tilesets[0].name, b"atlas".to_vec());
    assert_eq!(map.tilesets[0].tile_width, 32);
    assert_eq!(map.tilesets[0].tile_height, 32);
    assert_eq!(map.tilesets[0].image_width, 512);
    assert_eq!(map.tilesets[0].image_height, 512);
}

#[test]
fn parsed_map_drives_the_core() {
    let parsed = tiled::parse(EXAMPLE_CONF.trim_start().as_bytes()).unwrap();
    let data = convert(&parsed);
    assert!(data.validate());
    let m = TileMap::new(data, 0, 0);
    assert_eq!(m.get_tile(3, 0, 0), 5);
    assert_eq!(m.get_tile(6, 1, 0), 2);
    // 8 by 7 tiles of 32 pixels: pixel extent 256 by 224
    assert_eq!(m.point_to_tile(100, 100), (3, 3));
    assert_eq!(m.point_to_tile(-50, 500), (0, 6));
    assert_eq!(m.get_tile_foot(0, 0), tilecore::common::Point { x: 16, y: 32 });
}

#[test]
fn oversized_map_is_rejected() {
    let conf = r#"
<?xml version="1.0" encoding="UTF-8"?>
<map version="1.0" tiledversion="1.1.6" orientation="orthogonal" renderorder="right-down" width="40000" height="7" tilewidth="32" tileheight="32" infinite="0" nextobjectid="1">
</map>
"#;
    let parsed = tiled::parse(conf.trim_start().as_bytes()).unwrap();
    assert!(!convert(&parsed).validate());
}
