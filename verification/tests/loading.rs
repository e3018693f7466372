use tilespin::state::App;
use tilespin::tiles::TileSheet;
use tilespin::tmx::{load_map, MapError};
use tilespin::units::MapStub;

const VALID_TMX: &str = r#"<?xml version="1.0" encoding="UTF-8"?>
<map version="1.0" orientation="orthogonal" width="2" height="2" tilewidth="16" tileheight="16">
 <tileset firstgid="1" name="sheet" tilewidth="16" tileheight="16">
  <image source="sheet.png" width="32" height="16"/>
 </tileset>
 <layer name="ground" width="2" height="2">
  <data encoding="csv">
0,1,
2,0
</data>
 </layer>
</map>
"#;

const NO_TILESET_TMX: &str = r#"<?xml version="1.0" encoding="UTF-8"?>
<map version="1.0" orientation="orthogonal" width="1" height="1" tilewidth="16" tileheight="16">
 <layer name="ground" width="1" height="1">
  <data encoding="csv">0</data>
 </layer>
</map>
"#;

const NO_IMAGE_TMX: &str = r#"<?xml version="1.0" encoding="UTF-8"?>
<map version="1.0" orientation="orthogonal" width="1" height="1" tilewidth="16" tileheight="16">
 <tileset firstgid="1" name="sheet" tilewidth="16" tileheight="16"></tileset>
 <layer name="ground" width="1" height="1">
  <data encoding="csv">0</data>
 </layer>
</map>
"#;

const NO_LAYER_TMX: &str = r#"<?xml version="1.0" encoding="UTF-8"?>
<map version="1.0" orientation="orthogonal" width="1" height="1" tilewidth="16" tileheight="16">
 <tileset firstgid="1" name="sheet" tilewidth="16" tileheight="16">
  <image source="sheet.png" width="32" height="16"/>
 </tileset>
</map>
"#;

#[test]
fn load_valid_map() {
    let info = load_map(tiled::parse(VALID_TMX.as_bytes())).unwrap();
    assert_eq!(info.tile_width, 16);
    assert_eq!(info.tile_height, 16);
    assert_eq!(info.image_source, "sheet.png");
    assert_eq!(info.layer.rows(), 2);
    assert_eq!(info.layer.row_len(0), 2);
    assert_eq!(info.layer.row_len(1), 2);
    assert_eq!(info.layer.tile_at(0, 0), 0);
    assert_eq!(info.layer.tile_at(0, 1), 1);
    assert_eq!(info.layer.tile_at(1, 0), 2);
    assert_eq!(info.layer.tile_at(1, 1), 0);
}

#[test]
fn load_reports_a_failed_parse() {
    let failed = Err(tiled::TiledError::Other("no document".to_string()));
    assert!(matches!(load_map(failed), Err(MapError::ParseFailed)));
}

#[test]
fn load_rejects_garbage() {
    assert!(matches!(
        load_map(tiled::parse(&b"this is no map"[..])),
        Err(MapError::ParseFailed)
    ));
}

#[test]
fn load_reports_missing_tileset() {
    assert!(matches!(load_map(tiled::parse(NO_TILESET_TMX.as_bytes())), Err(MapError::MissingTileset)));
}

#[test]
fn load_reports_missing_image() {
    assert!(matches!(load_map(tiled::parse(NO_IMAGE_TMX.as_bytes())), Err(MapError::MissingImage)));
}

#[test]
fn load_reports_missing_layer() {
    assert!(matches!(load_map(tiled::parse(NO_LAYER_TMX.as_bytes())), Err(MapError::MissingLayer)));
}

#[test]
fn startup_pipeline_renders() {
    let info = load_map(tiled::parse(VALID_TMX.as_bytes())).unwrap();
    let sheet = TileSheet::new(32, info.tile_width, info.tile_height).unwrap();
    let app = App::new(info.layer, sheet).unwrap();
    let ops = app.render();
    assert_eq!(ops.len(), 2);
    assert_eq!((ops[0].dest_x, ops[0].dest_y), (16, 0));
    assert_eq!((ops[0].src_x, ops[0].src_y), (0, 0));
    assert_eq!((ops[1].dest_x, ops[1].dest_y), (0, 16));
    assert_eq!((ops[1].src_x, ops[1].src_y), (16, 0));
    assert_eq!(app.rotation, 0);
}

#[test]
fn map_stub_holds_its_size() {
    let mut stub = MapStub::new(20, 40);
    stub.getmap();
    assert_eq!(stub.width, 20);
    assert_eq!(stub.height, 40);
}
