//! Tilemap rendering core: converts a tile-layer map into a flat per-cell
//! atlas-index table, generates the subdivided plane mesh that the table is
//! sampled over, and plans the per-frame render pass that draws the whole map
//! in one call.

pub mod atlas;
pub mod mesh;
pub mod tile_map;
pub mod tilemap;
pub mod tilemap_pass;
