//! Loading the tile data out of a TMX document. The XML decoding itself is the
//! `tiled` crate's work and its outcome is handed in whole: `tiled::parse`
//! aborts the process on a few malformed documents (a CSV token that is no
//! 32-bit number, base64 data that does not fill its rows), so no verified
//! function of this crate may call it, and the caller makes that call behind
//! a panic guard. Everything after the parse — picking the pieces apart,
//! checking bounds, building the layer — is verified, for every outcome.

use vstd::prelude::*;

use crate::tiles::{grid_view, grid_wf, TileLayer};

verus! {

/// A parsed TMX document, as the `tiled` crate returns it: opaque here, read
/// only through the trusted accessors below.
#[verifier::external_type_specification]
#[verifier::external_body]
pub struct ExTiledMap(tiled::Map);

/// The `tiled` crate's parse error: opaque here, mapped to `MapError` at once.
#[verifier::external_type_specification]
#[verifier::external_body]
pub struct ExTiledError(tiled::TiledError);

/// The rows of tile indices of the first layer of a parsed map, when it has a
/// layer and that layer is a finite grid.
pub uninterp spec fn tmx_first_layer(m: tiled::Map) -> Option<Seq<Seq<u32>>>;

/// The tile dimensions and image path of the tileset a parsed map names for
/// tile index 1, when it has one.
pub uninterp spec fn tmx_tileset(m: tiled::Map) -> Option<TilesetInfo>;

/// What the renderer needs of a tileset: the pixel size of one tile and the
/// path of the sheet image, when the tileset names one.
#[derive(Debug, PartialEq)]
pub struct TilesetInfo {
    pub tile_width: u32,
    pub tile_height: u32,
    pub image_source: Option<String>,
}

/// Relies on `tiled::Map::get_tileset_by_gid`: it picks among the map's
/// tilesets by their first tile index, reading the map value alone, so the
/// result is a function of the map.
#[verifier::external_body]
fn tileset_info(m: &tiled::Map) -> (r: Option<TilesetInfo>)
    ensures
        r == tmx_tileset(*m),
{
    m.get_tileset_by_gid(1).map(|ts| TilesetInfo {
        tile_width: ts.tile_width,
        tile_height: ts.tile_height,
        image_source: ts.images.first().map(|i| i.source.clone()),
    })
}

/// Relies on the `tiled::Layer` data layout: a finite layer holds its tile
/// indices row by row, and `LayerTile::gid` is the index with the flip flags
/// masked off. Reads the map value alone, so the result is a function of it.
#[verifier::external_body]
fn first_layer_tiles(m: &tiled::Map) -> (r: Option<Vec<Vec<u32>>>)
    ensures
        r matches Some(t) ==> tmx_first_layer(*m) == Some(grid_view(t@)),
        r is None ==> tmx_first_layer(*m) is None,
{
    match m.layers.first().map(|l| &l.tiles) {
        Some(tiled::LayerData::Finite(rows)) => Some(
            rows.iter().map(|row| row.iter().map(|t| t.gid).collect()).collect(),
        ),
        _ => None,
    }
}

/// Why loading a map failed. Every one of these was fatal at startup.
#[derive(Debug, Clone, Copy, PartialEq, Eq, Structural)]
pub enum MapError {
    /// The bytes are no TMX document.
    ParseFailed,
    /// No tileset covers tile index 1.
    MissingTileset,
    /// The tileset names no image.
    MissingImage,
    /// The map has no layer, or its first layer is no finite grid.
    MissingLayer,
    /// A side of the layer does not fit in 32 bits.
    OversizedLayer,
}

/// What startup needs from the map file: the first layer, the tile size of
/// the sheet, and the path of the sheet image.
pub struct MapInfo {
    pub layer: TileLayer,
    pub tile_width: u32,
    pub tile_height: u32,
    pub image_source: String,
}

/// The map names a tileset for tile index 1.
pub open spec fn sheet_named(m: tiled::Map) -> bool {
    tmx_tileset(m) is Some
}

/// The map's tileset names a sheet image.
pub open spec fn image_named(m: tiled::Map) -> bool {
    tmx_tileset(m) matches Some(ts) && ts.image_source is Some
}

/// The map has a first layer and it is a finite grid.
pub open spec fn layer_present(m: tiled::Map) -> bool {
    tmx_first_layer(m) is Some
}

/// The map's first layer is a finite grid whose every side fits in 32 bits.
pub open spec fn layer_fits(m: tiled::Map) -> bool {
    tmx_first_layer(m) matches Some(g) && grid_wf(g)
}

/// `info` holds exactly what the parsed map says: its first layer's tile
/// indices, and its tileset's tile dimensions and sheet image path.
pub open spec fn info_matches(m: tiled::Map, info: MapInfo) -> bool {
    &&& tmx_first_layer(m) == Some(info.layer@)
    &&& info.layer.wf()
    &&& (tmx_tileset(m) matches Some(ts)
        && info.tile_width == ts.tile_width
        && info.tile_height == ts.tile_height
        && ts.image_source == Some(info.image_source))
}

/// Reads what startup needs out of the outcome of parsing a map file: the
/// document's first layer, the tile dimensions of the tileset for tile
/// index 1, and the sheet image's path. Fails with `ParseFailed` exactly when
/// the parse itself failed, and otherwise exactly when a piece the renderer
/// needs is missing — the first such piece, in the order the fields are read.
pub fn load_map(parsed: Result<tiled::Map, tiled::TiledError>) -> (r: Result<MapInfo, MapError>)
    ensures
        (r == Err::<MapInfo, MapError>(MapError::ParseFailed) <==> parsed is Err),
        parsed matches Ok(m) ==> {
            &&& (r == Err::<MapInfo, MapError>(MapError::MissingTileset) <==> !sheet_named(m))
            &&& (r == Err::<MapInfo, MapError>(MapError::MissingImage)
                <==> sheet_named(m) && !image_named(m))
            &&& (r == Err::<MapInfo, MapError>(MapError::MissingLayer)
                <==> image_named(m) && !layer_present(m))
            &&& (r == Err::<MapInfo, MapError>(MapError::OversizedLayer)
                <==> image_named(m) && layer_present(m) && !layer_fits(m))
            &&& (r is Ok <==> image_named(m) && layer_fits(m))
            &&& (r matches Ok(info) ==> info_matches(m, info))
        },
{
    let m = match parsed {
        Ok(m) => m,
        Err(_) => {
            return Err(MapError::ParseFailed);
        },
    };
    let ts = match tileset_info(&m) {
        Some(ts) => ts,
        None => {
            return Err(MapError::MissingTileset);
        },
    };
    let src = match ts.image_source {
        Some(src) => src,
        None => {
            return Err(MapError::MissingImage);
        },
    };
    let tiles = match first_layer_tiles(&m) {
        Some(tiles) => tiles,
        None => {
            return Err(MapError::MissingLayer);
        },
    };
    let layer = match TileLayer::new(tiles) {
        Some(layer) => layer,
        None => {
            return Err(MapError::OversizedLayer);
        },
    };
    Ok(MapInfo { layer, tile_width: ts.tile_width, tile_height: ts.tile_height, image_source: src })
}

} // verus!
