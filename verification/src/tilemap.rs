//! The tile table: one atlas-cell record per map grid cell, row-major, built
//! once at load time, plus the load-time assembly of everything a renderable
//! tilemap carries. The table is bounded by the fixed capacity of the
//! shader's tile-index buffer; a map with more cells is a load-time
//! configuration error and yields no partial table.

use crate::atlas::{atlas_cell_spec, atlas_index, gid_in_range, TileCell};
use crate::mesh::{expanded_plane_spec, generate_tilemap_plane, PosTex};
use crate::tile_map::{layer_wf, TileMap};
use vstd::prelude::*;

verus! {

/// Hard capacity of the shader's tile-index buffer, in cells: a uniform
/// block of this many vec4 entries. A table longer than this cannot be
/// uploaded and is rejected at construction time.
pub const TILE_TABLE_CAPACITY: u64 = 4096;

/// Grid size of the rendered tilemap, in cells.
#[derive(Clone, Copy, PartialEq, Eq, Structural, Debug)]
pub struct TilemapDimensions {
    pub width: u32,
    pub height: u32,
}

/// Grid size of the tilesheet atlas, in cells.
#[derive(Clone, Copy, PartialEq, Eq, Structural, Debug)]
pub struct TilesheetDimensions {
    pub width: u32,
    pub height: u32,
}

/// The tile table: the atlas cell to sample for each map cell, row-major in
/// the map's authoring order.
#[derive(Clone, PartialEq, Eq, Debug)]
pub struct TilemapTiles {
    pub tiles: Vec<TileCell>,
}

/// A load-time configuration error: the map or atlas cannot make a
/// renderable tilemap. The caller can skip creating the tilemap and go on.
#[derive(Clone, Copy, PartialEq, Eq, Structural, Debug)]
pub enum TilemapError {
    /// The map has more cells than the fixed shader buffer holds; the
    /// offending grid size is reported.
    CapacityExceeded { width: u32, height: u32 },
    /// Some layer is not shaped as `height` rows of `width` GIDs.
    MalformedLayer,
    /// Some GID names no cell of the atlas.
    GidOutOfRange,
    /// The map grid has no cells: one of its axes is zero.
    EmptyMap,
    /// The atlas grid has no cells: a zero tile size, or an image smaller
    /// than one tile.
    EmptyAtlas,
}

/// A `width x height`-cell table fits the fixed shader buffer.
pub open spec fn capacity_ok(width: int, height: int) -> bool {
    width * height <= TILE_TABLE_CAPACITY
}

/// The GID that layer compositing leaves at cell `(row, col)` after the
/// first `upto` layers: the last nonzero GID any of them wrote, or 0 if
/// every layer is empty there. Later layers overwrite earlier ones; an empty
/// cell of a later layer lets the earlier value show through.
pub open spec fn composited_gid_upto(map: TileMap, upto: int, row: int, col: int) -> int
    decreases upto,
{
    if upto <= 0 {
        0
    } else {
        let g = map.gid_at(upto - 1, row, col);
        if g != 0 {
            g
        } else {
            composited_gid_upto(map, upto - 1, row, col)
        }
    }
}

/// The composited GID at cell `(row, col)` over all layers.
pub open spec fn composited_gid(map: TileMap, row: int, col: int) -> int {
    composited_gid_upto(map, map.layers@.len() as int, row, col)
}

/// The tile table of a map over a `atlas_w x atlas_h` atlas: cell `i` of the
/// row-major table holds the atlas cell of the composited GID at grid cell
/// `(i / width, i mod width)`.
pub open spec fn table_spec(map: TileMap, atlas_w: int, atlas_h: int) -> Seq<TileCell> {
    Seq::new(
        (map.width * map.height) as nat,
        |i: int|
            atlas_cell_spec(
                composited_gid(map, i / map.width as int, i % map.width as int),
                atlas_w,
                atlas_h,
            ),
    )
}

/// A composited GID is either 0 or one of the map's own GIDs, so it stays in
/// range of the atlas whenever all of the map's GIDs are.
proof fn lemma_composited_in_range(
    map: TileMap,
    upto: int,
    row: int,
    col: int,
    atlas_w: int,
    atlas_h: int,
)
    requires
        0 <= upto <= map.layers@.len(),
        0 <= row < map.height,
        0 <= col < map.width,
        map.gids_in_range(atlas_w, atlas_h),
        0 <= atlas_w,
        0 <= atlas_h,
    ensures
        gid_in_range(composited_gid_upto(map, upto, row, col), atlas_w, atlas_h),
    decreases upto,
{
    if upto <= 0 {
        assert(0 <= atlas_w * atlas_h) by (nonlinear_arith)
            requires
                0 <= atlas_w,
                0 <= atlas_h,
        ;
    } else {
        assert(gid_in_range(map.gid_at(upto - 1, row, col), atlas_w, atlas_h));
        lemma_composited_in_range(map, upto - 1, row, col, atlas_w, atlas_h);
    }
}

/// Builds the tile table of a map over a `tilesheet_width x tilesheet_height`
/// atlas. The table has exactly `map.width * map.height` records; a map with
/// more cells than the buffer capacity fails with the capacity error and
/// produces no table at all, as does a misshapen layer or an out-of-range
/// GID.
#[verifier::loop_isolation(false)]
pub fn generate_tile_data(map: &TileMap, tilesheet_width: u32, tilesheet_height: u32) -> (result:
    Result<TilemapTiles, TilemapError>)
    requires
        1 <= tilesheet_width,
        1 <= tilesheet_height,
    ensures
        result is Ok <==> capacity_ok(map.width as int, map.height as int) && map.layers_wf()
            && map.gids_in_range(tilesheet_width as int, tilesheet_height as int),
        result matches Ok(t) ==> t.tiles@ == table_spec(
            *map,
            tilesheet_width as int,
            tilesheet_height as int,
        ) && t.tiles@.len() == map.width * map.height,
        result matches Err(e) ==> {
            &&& (e == (TilemapError::CapacityExceeded { width: map.width, height: map.height })
                <==> !capacity_ok(map.width as int, map.height as int))
            &&& (e is MalformedLayer <==> capacity_ok(map.width as int, map.height as int)
                && !map.layers_wf())
            &&& (e is GidOutOfRange <==> capacity_ok(map.width as int, map.height as int)
                && map.layers_wf() && !map.gids_in_range(
                tilesheet_width as int,
                tilesheet_height as int,
            ))
        },
{
    let w = map.width;
    let h = map.height;
    proof {
        assert((w as int) * (h as int) <= 0xFFFF_FFFF_FFFF_FFFF) by (nonlinear_arith)
            requires
                w <= 0xFFFF_FFFF,
                h <= 0xFFFF_FFFF,
        ;
        assert((tilesheet_width as int) * (tilesheet_height as int) <= 0xFFFF_FFFF_FFFF_FFFF)
            by (nonlinear_arith)
            requires
                tilesheet_width <= 0xFFFF_FFFF,
                tilesheet_height <= 0xFFFF_FFFF,
        ;
    }
    if (w as u64) * (h as u64) > TILE_TABLE_CAPACITY {
        return Err(TilemapError::CapacityExceeded { width: w, height: h });
    }
    let layer_count = map.layers.len();
    let mut l: usize = 0;
    while l < layer_count
        invariant
            l <= layer_count,
            forall|j: int|
                0 <= j < l ==> layer_wf(#[trigger] map.layers@[j], w as int, h as int),
        decreases layer_count - l,
    {
        let layer = &map.layers[l];
        if layer.tiles.len() != h as usize {
            assert(!layer_wf(map.layers@[l as int], w as int, h as int));
            return Err(TilemapError::MalformedLayer);
        }
        let mut r: usize = 0;
        while r < h as usize
            invariant
                r <= h,
                layer == map.layers@[l as int],
                layer.tiles@.len() == h,
                forall|j: int| 0 <= j < r ==> #[trigger] layer.tiles@[j]@.len() == w,
            decreases h - r,
        {
            if layer.tiles[r].len() != w as usize {
                assert(!layer_wf(map.layers@[l as int], w as int, h as int));
                return Err(TilemapError::MalformedLayer);
            }
            r = r + 1;
        }
        assert(layer_wf(map.layers@[l as int], w as int, h as int));
        l = l + 1;
    }
    assert(map.layers_wf());
    let mut l: usize = 0;
    while l < layer_count
        invariant
            l <= layer_count,
            forall|j: int, row: int, col: int|
                0 <= j < l && 0 <= row < h && 0 <= col < w ==> gid_in_range(
                    #[trigger] map.gid_at(j, row, col),
                    tilesheet_width as int,
                    tilesheet_height as int,
                ),
        decreases layer_count - l,
    {
        let layer = &map.layers[l];
        let mut row: usize = 0;
        while row < h as usize
            invariant
                row <= h,
                layer == map.layers@[l as int],
                forall|j: int, row0: int, col: int|
                    0 <= j < l && 0 <= row0 < h && 0 <= col < w ==> gid_in_range(
                        #[trigger] map.gid_at(j, row0, col),
                        tilesheet_width as int,
                        tilesheet_height as int,
                    ),
                forall|row0: int, col: int|
                    0 <= row0 < row && 0 <= col < w ==> gid_in_range(
                        #[trigger] map.gid_at(l as int, row0, col),
                        tilesheet_width as int,
                        tilesheet_height as int,
                    ),
            decreases h - row,
        {
            let cells = &layer.tiles[row];
            let mut col: usize = 0;
            while col < w as usize
                invariant
                    col <= w,
                    layer == map.layers@[l as int],
                    cells == layer.tiles@[row as int],
                    forall|col0: int|
                        0 <= col0 < col ==> gid_in_range(
                            #[trigger] map.gid_at(l as int, row as int, col0),
                            tilesheet_width as int,
                            tilesheet_height as int,
                        ),
                decreases w - col,
            {
                let g = cells[col];
                proof {
                    assert((tilesheet_width as int) * (tilesheet_height as int)
                        <= 0xFFFF_FFFF_FFFF_FFFF) by (nonlinear_arith)
                        requires
                            tilesheet_width <= 0xFFFF_FFFF,
                            tilesheet_height <= 0xFFFF_FFFF,
                    ;
                    assert(map.gid_at(l as int, row as int, col as int) == g as int);
                }
                if (g as u64) > (tilesheet_width as u64) * (tilesheet_height as u64) {
                    assert(!gid_in_range(
                        map.gid_at(l as int, row as int, col as int),
                        tilesheet_width as int,
                        tilesheet_height as int,
                    ));
                    assert(!map.gids_in_range(tilesheet_width as int, tilesheet_height as int));
                    return Err(TilemapError::GidOutOfRange);
                }
                assert(gid_in_range(
                    map.gid_at(l as int, row as int, col as int),
                    tilesheet_width as int,
                    tilesheet_height as int,
                ));
                col = col + 1;
            }
            row = row + 1;
        }
        l = l + 1;
    }
    assert(map.gids_in_range(tilesheet_width as int, tilesheet_height as int));
    let n = ((w as u64) * (h as u64)) as usize;
    let mut tiles: Vec<TileCell> = Vec::new();
    let mut i: usize = 0;
    while i < n
        invariant
            i <= n,
            tiles@.len() == i,
            forall|j: int|
                0 <= j < i ==> #[trigger] tiles@[j] == table_spec(
                    *map,
                    tilesheet_width as int,
                    tilesheet_height as int,
                )[j],
        decreases n - i,
    {
        proof {
            if w == 0 {
                assert((w as int) * (h as int) == 0) by (nonlinear_arith)
                    requires
                        w == 0,
                ;
            }
        }
        let row = i / (w as usize);
        let col = i % (w as usize);
        proof {
            crate::atlas::lemma_div_stays_below(i as int, w as int, h as int);
            vstd::arithmetic::div_mod::lemma_mod_bound(i as int, w as int);
            vstd::arithmetic::div_mod::lemma_div_pos_is_pos(i as int, w as int);
        }
        let mut g: u32 = 0;
        let mut l: usize = 0;
        while l < layer_count
            invariant
                l <= layer_count,
                row < h,
                col < w,
                g == composited_gid_upto(*map, l as int, row as int, col as int),
            decreases layer_count - l,
        {
            let t = map.layers[l].tiles[row][col];
            if t != 0 {
                g = t;
            }
            l = l + 1;
        }
        proof {
            lemma_composited_in_range(
                *map,
                map.layers@.len() as int,
                row as int,
                col as int,
                tilesheet_width as int,
                tilesheet_height as int,
            );
        }
        let cell = atlas_index(g, tilesheet_width, tilesheet_height);
        tiles.push(cell);
        i = i + 1;
    }
    proof {
        assert(tiles@ =~= table_spec(*map, tilesheet_width as int, tilesheet_height as int));
    }
    Ok(TilemapTiles { tiles })
}

/// Everything a renderable tilemap entity carries, assembled once at load
/// time: mutually consistent dimensions, tile table and mesh, plus the
/// translation that moves the origin-centered mesh so the map's lower-left
/// corner sits at the world origin.
#[derive(Clone, PartialEq, Eq, Debug)]
pub struct TilemapBundle {
    pub dimensions: TilemapDimensions,
    pub tilesheet: TilesheetDimensions,
    pub tiles: TilemapTiles,
    pub mesh: Vec<PosTex>,
    pub translation_x: u64,
    pub translation_y: u64,
}

/// The atlas grid has at least one cell: nonzero tile sizes and a tileset
/// image at least one tile big.
pub open spec fn atlas_nonempty(map: TileMap, image_width: int, image_height: int) -> bool {
    &&& 1 <= map.tile_width
    &&& 1 <= map.tile_height
    &&& map.tile_width <= image_width
    &&& map.tile_height <= image_height
}

/// Atlas cell counts derived from the tileset image: how many whole tiles
/// fit along each axis.
pub open spec fn sheet_dims_spec(
    map: TileMap,
    image_width: int,
    image_height: int,
) -> TilesheetDimensions {
    TilesheetDimensions {
        width: (image_width / map.tile_width as int) as u32,
        height: (image_height / map.tile_height as int) as u32,
    }
}

/// Every load-time condition for a renderable tilemap: a nonempty grid, a
/// nonempty atlas, a table that fits the shader buffer, well-shaped layers,
/// and GIDs that name atlas cells.
pub open spec fn bundle_ok(map: TileMap, image_width: int, image_height: int) -> bool {
    &&& 1 <= map.width
    &&& 1 <= map.height
    &&& atlas_nonempty(map, image_width, image_height)
    &&& capacity_ok(map.width as int, map.height as int)
    &&& map.layers_wf()
    &&& map.gids_in_range(
        sheet_dims_spec(map, image_width, image_height).width as int,
        sheet_dims_spec(map, image_width, image_height).height as int,
    )
}

/// Assembles a renderable tilemap from a decoded map and the pixel size of
/// its tileset image: the grid and atlas dimension records, the tile table,
/// the mesh, and the centering translation. Fails with the load-time error
/// naming what is wrong; on success all parts are mutually consistent (the
/// table has exactly one record per grid cell).
pub fn build_tilemap_bundle(map: &TileMap, image_width: u32, image_height: u32) -> (result: Result<
    TilemapBundle,
    TilemapError,
>)
    ensures
        result is Ok <==> bundle_ok(*map, image_width as int, image_height as int),
        result matches Ok(b) ==> {
            &&& b.dimensions == (TilemapDimensions { width: map.width, height: map.height })
            &&& b.tilesheet == sheet_dims_spec(*map, image_width as int, image_height as int)
            &&& b.tiles.tiles@ == table_spec(
                *map,
                b.tilesheet.width as int,
                b.tilesheet.height as int,
            )
            &&& b.tiles.tiles@.len() == b.dimensions.width * b.dimensions.height
            &&& b.mesh@ == expanded_plane_spec(
                map.tile_width as int,
                map.width as int,
                map.height as int,
            )
            &&& b.translation_x == (map.width * map.tile_width) / 2
            &&& b.translation_y == (map.height * map.tile_height) / 2
        },
        result matches Err(e) ==> {
            let nonempty = 1 <= map.width && 1 <= map.height;
            let atlas = atlas_nonempty(*map, image_width as int, image_height as int);
            let cap = capacity_ok(map.width as int, map.height as int);
            let sheet = sheet_dims_spec(*map, image_width as int, image_height as int);
            &&& (e is EmptyMap <==> !nonempty)
            &&& (e is EmptyAtlas <==> nonempty && !atlas)
            &&& (e == (TilemapError::CapacityExceeded { width: map.width, height: map.height })
                <==> nonempty && atlas && !cap)
            &&& (e is MalformedLayer <==> nonempty && atlas && cap && !map.layers_wf())
            &&& (e is GidOutOfRange <==> nonempty && atlas && cap && map.layers_wf()
                && !map.gids_in_range(sheet.width as int, sheet.height as int))
        },
{
    if map.width == 0 || map.height == 0 {
        return Err(TilemapError::EmptyMap);
    }
    if map.tile_width == 0 || map.tile_height == 0 || image_width < map.tile_width || image_height
        < map.tile_height {
        return Err(TilemapError::EmptyAtlas);
    }
    let sheet_w = image_width / map.tile_width;
    let sheet_h = image_height / map.tile_height;
    proof {
        vstd::arithmetic::div_mod::lemma_div_by_self(map.tile_width as int);
        vstd::arithmetic::div_mod::lemma_div_is_ordered(
            map.tile_width as int,
            image_width as int,
            map.tile_width as int,
        );
        vstd::arithmetic::div_mod::lemma_div_by_self(map.tile_height as int);
        vstd::arithmetic::div_mod::lemma_div_is_ordered(
            map.tile_height as int,
            image_height as int,
            map.tile_height as int,
        );
    }
    let tiles = match generate_tile_data(map, sheet_w, sheet_h) {
        Ok(t) => t,
        Err(e) => {
            return Err(e);
        },
    };
    proof {
        assert(map.width <= 4096 && map.height <= 4096 && ((map.width as int) + 1) * ((
        map.height as int) + 1) <= 0x1000_0000 && (map.tile_width as int) * (map.width as int)
            <= 0x2000_0000_0000 && (map.tile_width as int) * (map.height as int)
            <= 0x2000_0000_0000 && (map.width as int) * (map.tile_width as int)
            <= 0xFFFF_FFFF_FFFF_FFFF && (map.height as int) * (map.tile_height as int)
            <= 0xFFFF_FFFF_FFFF_FFFF) by (nonlinear_arith)
            requires
                1 <= map.width,
                1 <= map.height,
                (map.width as int) * (map.height as int) <= 4096,
                map.tile_width <= 0xFFFF_FFFF,
                map.tile_height <= 0xFFFF_FFFF,
        ;
    }
    let mesh = generate_tilemap_plane(map.tile_width, map.width, map.height);
    let translation_x = ((map.width as u64) * (map.tile_width as u64)) / 2;
    let translation_y = ((map.height as u64) * (map.tile_height as u64)) / 2;
    Ok(
        TilemapBundle {
            dimensions: TilemapDimensions { width: map.width, height: map.height },
            tilesheet: TilesheetDimensions { width: sheet_w, height: sheet_h },
            tiles,
            mesh,
            translation_x,
            translation_y,
        },
    )
}

/// Table building is deterministic: the table is a function of the map and
/// the atlas dimensions alone, so building the same map twice yields
/// identical tables.
pub proof fn lemma_table_deterministic(
    t1: Seq<TileCell>,
    t2: Seq<TileCell>,
    map: TileMap,
    atlas_w: int,
    atlas_h: int,
)
    requires
        t1 == table_spec(map, atlas_w, atlas_h),
        t2 == table_spec(map, atlas_w, atlas_h),
    ensures
        t1 == t2,
{
}

} // verus!
