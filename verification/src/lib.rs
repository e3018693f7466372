//! A verified core for a tile-map demo: a tile layer indexed one-based into a
//! tile sheet, the source-rectangle and screen-placement arithmetic of the
//! render loop, a fixed-point rotation state, and the extraction of layer and
//! tileset data from a TMX document.

pub mod state;
pub mod tiles;
pub mod tmx;
pub mod units;
