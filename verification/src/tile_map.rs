//! The decoded map the tilemap is built from: a rectangular grid of GIDs per
//! layer, plus the pixel size of one tile. An external map-format parser
//! produces these plain values; everything downstream works on them.

use vstd::prelude::*;

verus! {

/// One map layer: rows of GIDs in authoring order (top row first), each row
/// `width` entries long.
#[derive(Clone, PartialEq, Eq, Debug)]
pub struct TileLayer {
    pub tiles: Vec<Vec<u32>>,
}

/// A decoded rectangular tile map: grid size in cells, tile size in pixels,
/// and the layers in authoring order.
#[derive(Clone, PartialEq, Eq, Debug)]
pub struct TileMap {
    pub width: u32,
    pub height: u32,
    pub tile_width: u32,
    pub tile_height: u32,
    pub layers: Vec<TileLayer>,
}

/// A layer is shaped to the map grid: `height` rows of `width` GIDs each.
pub open spec fn layer_wf(layer: TileLayer, width: int, height: int) -> bool {
    &&& layer.tiles@.len() == height
    &&& forall|r: int| 0 <= r < height ==> #[trigger] layer.tiles@[r]@.len() == width
}

impl TileMap {
    /// Every layer is shaped to the map grid.
    pub open spec fn layers_wf(self) -> bool {
        forall|l: int|
            0 <= l < self.layers@.len() ==> layer_wf(
                #[trigger] self.layers@[l],
                self.width as int,
                self.height as int,
            )
    }

    /// The GID stored at grid cell `(row, col)` of layer `l`.
    pub open spec fn gid_at(self, l: int, row: int, col: int) -> int {
        self.layers@[l].tiles@[row]@[col] as int
    }

    /// Every GID of every layer names a cell of a `atlas_w x atlas_h` atlas
    /// (or is the empty GID 0).
    pub open spec fn gids_in_range(self, atlas_w: int, atlas_h: int) -> bool {
        forall|l: int, row: int, col: int|
            0 <= l < self.layers@.len() && 0 <= row < self.height && 0 <= col < self.width
                ==> crate::atlas::gid_in_range(
                #[trigger] self.gid_at(l, row, col),
                atlas_w,
                atlas_h,
            )
    }
}

} // verus!
