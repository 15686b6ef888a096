//! Procedural tilemap mesh: a planar grid of `width x height` quads with
//! shared vertices at cell boundaries, triangulated into a flat triangle
//! list. Texture coordinates are in grid-cell units (the cell column and the
//! flipped cell row), not pixel UVs, so the fragment stage can look a cell up
//! in the tile table directly.
//!
//! Positions are in integer world units, centered on the origin: lattice
//! point `x` of a `w`-cell axis with `tilesize`-pixel cells sits at
//! `tilesize * x - tilesize * w / 2`, rounded half away from zero where
//! `tilesize * w` is odd.

use genmesh::generators::{IndexedPolygon, Plane};
use genmesh::{Triangulate, Vertices};
use vstd::prelude::*;

verus! {

/// One mesh vertex: a world-unit position and a grid-cell texture
/// coordinate.
#[derive(Clone, Copy, PartialEq, Eq, Structural, Debug)]
pub struct PosTex {
    pub pos_x: i64,
    pub pos_y: i64,
    pub pos_z: i64,
    pub tex_u: u32,
    pub tex_v: u32,
}

/// A tilemap mesh in shared-vertex form: boundary vertices between adjacent
/// quads are stored once and referenced by the triangle index list.
#[derive(Clone, PartialEq, Eq, Debug)]
pub struct TilemapMesh {
    pub vertices: Vec<PosTex>,
    pub indices: Vec<usize>,
}

/// Round half away from zero of `num / 2`.
pub open spec fn half_round(num: int) -> int {
    if num >= 0 {
        (num + 1) / 2
    } else {
        -((1 - num) / 2)
    }
}

/// The vertex at lattice point `(x, y)` of a `w x h`-cell grid: position
/// `tilesize * x - tilesize * w / 2` per axis (rounded half away from zero),
/// texture coordinate `(x, h - y)` in grid-cell units. The vertical flip
/// keeps the mesh's texture rows consistent with the tile table's
/// bottom-measured atlas rows.
pub open spec fn vertex_at(tilesize: int, w: int, h: int, x: int, y: int) -> PosTex {
    PosTex {
        pos_x: half_round(2 * (tilesize * x) - tilesize * w) as i64,
        pos_y: half_round(2 * (tilesize * y) - tilesize * h) as i64,
        pos_z: 0,
        tex_u: x as u32,
        tex_v: (h - y) as u32,
    }
}

/// Shared vertex `v` of the lattice, row-major: lattice point
/// `(v mod (w+1), v / (w+1))`.
pub open spec fn vertex_spec(tilesize: int, w: int, h: int, v: int) -> PosTex {
    vertex_at(tilesize, w, h, v % (w + 1), v / (w + 1))
}

/// Shared-vertex index of the bottom-left corner of quad `quad` (row-major)
/// in a `w`-cell-wide grid.
pub open spec fn quad_base(w: int, quad: int) -> int {
    (quad / w) * (w + 1) + quad % w
}

/// Entry `k` of the flat triangle index stream: quad `k / 6`, with the six
/// corners `(a, b, c, c, d, a)` of the two triangles `(a, b, c)` and
/// `(c, d, a)`, where the quad's corners are `a = base`, `b = base + 1`,
/// `c = base + w + 2`, `d = base + w + 1`.
pub open spec fn plane_index_at(w: int, k: int) -> int {
    let base = quad_base(w, k / 6);
    let corner = k % 6;
    if corner == 0 {
        base
    } else if corner == 1 {
        base + 1
    } else if corner == 2 {
        base + w + 2
    } else if corner == 3 {
        base + w + 2
    } else if corner == 4 {
        base + w + 1
    } else {
        base
    }
}

/// Size bounds under which the mesh arithmetic fits the machine's integers:
/// at least one cell per axis, a vertex count that fits comfortably in
/// `usize`, and per-axis pixel extents that fit the position computation.
pub open spec fn mesh_dims_ok(tilesize: int, w: int, h: int) -> bool {
    &&& 1 <= w
    &&& 1 <= h
    &&& (w + 1) * (h + 1) <= 0x1000_0000
    &&& tilesize * w <= 0x2000_0000_0000
    &&& tilesize * h <= 0x2000_0000_0000
}

/// Relies on genmesh's `Plane` generator: `Plane::subdivide(w, h)` has `w*h`
/// quads in row-major order, quad `(x, y)` having shared-vertex indices
/// `(base, base+1, base+w+2, base+w+1)` for `base = y*(w+1) + x`;
/// `triangulate` splits each quad `(a, b, c, d)` into the triangles
/// `(a, b, c)` and `(c, d, a)`, and `vertices` flattens them in order.
/// `subdivide` asserts that both subdivision counts are nonzero, hence the
/// preconditions.
#[verifier::external_body]
fn plane_triangle_indices(width: usize, height: usize) -> (r: Vec<usize>)
    requires
        1 <= width,
        1 <= height,
    ensures
        r@.len() == width * height * 6,
        forall|k: int| 0 <= k < r@.len() ==> #[trigger] r@[k] == plane_index_at(width as int, k),
{
    let plane = Plane::subdivide(width, height);
    let indices: Vec<usize> = plane.indexed_polygon_iter().triangulate().vertices().collect();
    indices
}

/// The position of lattice point `coord` along an axis of `cells` cells of
/// `tilesize` pixels each, centered on the origin.
fn axis_position(tilesize: u32, cells: u32, coord: u32) -> (p: i64)
    requires
        coord <= cells,
        (tilesize as int) * (cells as int) <= 0x2000_0000_0000,
    ensures
        p == half_round(
            2 * ((tilesize as int) * (coord as int)) - (tilesize as int) * (cells as int),
        ),
{
    let t = tilesize as u64;
    proof {
        assert((tilesize as int) * (coord as int) <= (tilesize as int) * (cells as int))
            by (nonlinear_arith)
            requires
                coord <= cells,
                0 <= tilesize,
        ;
    }
    let a = 2 * (t * (coord as u64));
    let b = t * (cells as u64);
    if a >= b {
        ((a - b + 1) / 2) as i64
    } else {
        -(((b - a + 1) / 2) as i64)
    }
}

/// Every index of the triangle stream of a `w x h` plane names one of the
/// `(w+1)*(h+1)` shared vertices.
pub proof fn lemma_plane_index_in_bounds(w: int, h: int, k: int)
    requires
        1 <= w,
        1 <= h,
        0 <= k < w * h * 6,
    ensures
        0 <= plane_index_at(w, k) < (w + 1) * (h + 1),
{
    let quad = k / 6;
    vstd::arithmetic::div_mod::lemma_div_pos_is_pos(k, 6);
    assert(w * h * 6 == 6 * (w * h)) by (nonlinear_arith);
    crate::atlas::lemma_div_stays_below(k, 6, w * h);
    let x = quad % w;
    let y = quad / w;
    vstd::arithmetic::div_mod::lemma_mod_bound(quad, w);
    vstd::arithmetic::div_mod::lemma_div_pos_is_pos(quad, w);
    crate::atlas::lemma_div_stays_below(quad, w, h);
    assert(0 <= y * (w + 1) + x && y * (w + 1) + x + w + 2 < (w + 1) * (h + 1))
        by (nonlinear_arith)
        requires
            1 <= w,
            1 <= h,
            0 <= x < w,
            0 <= y <= h - 1,
    ;
}

/// The vertex a lattice point maps to, by its row-major shared index.
proof fn lemma_vertex_spec_at(tilesize: int, w: int, h: int, x: int, y: int)
    requires
        1 <= w,
        0 <= x < w + 1,
        0 <= y,
    ensures
        vertex_spec(tilesize, w, h, y * (w + 1) + x) == vertex_at(tilesize, w, h, x, y),
{
    vstd::arithmetic::div_mod::lemma_fundamental_div_mod_converse(
        y * (w + 1) + x,
        w + 1,
        y,
        x,
    );
}

/// Builds the shared-vertex mesh of a `tilemap_width x tilemap_height`-cell
/// grid of square tiles of `tilesize` pixels: exactly
/// `(tilemap_width+1) * (tilemap_height+1)` shared vertices and
/// `tilemap_width * tilemap_height * 2` triangles (three indices each), each
/// index in bounds of the vertex array.
#[verifier::loop_isolation(false)]
pub fn generate_tilemap_mesh(tilesize: u32, tilemap_width: u32, tilemap_height: u32) -> (mesh:
    TilemapMesh)
    requires
        mesh_dims_ok(tilesize as int, tilemap_width as int, tilemap_height as int),
    ensures
        mesh.vertices@.len() == (tilemap_width + 1) * (tilemap_height + 1),
        forall|v: int|
            0 <= v < mesh.vertices@.len() ==> #[trigger] mesh.vertices@[v] == vertex_spec(
                tilesize as int,
                tilemap_width as int,
                tilemap_height as int,
                v,
            ),
        mesh.indices@.len() == tilemap_width * tilemap_height * 6,
        forall|k: int|
            0 <= k < mesh.indices@.len() ==> #[trigger] mesh.indices@[k] == plane_index_at(
                tilemap_width as int,
                k,
            ) && mesh.indices@[k] < mesh.vertices@.len(),
{
    let w = tilemap_width;
    let h = tilemap_height;
    proof {
        assert(w + 1 <= 0x1000_0000 && h + 1 <= 0x1000_0000) by (nonlinear_arith)
            requires
                1 <= w,
                1 <= h,
                ((w as int) + 1) * ((h as int) + 1) <= 0x1000_0000,
        ;
    }
    let wp1 = w as usize + 1;
    let hp1 = h as usize + 1;
    let mut vertices: Vec<PosTex> = Vec::new();
    let mut y: u32 = 0;
    while y < h + 1
        invariant
            y <= h + 1,
            vertices@.len() == (y as int) * (wp1 as int),
            forall|v: int|
                0 <= v < vertices@.len() ==> #[trigger] vertices@[v] == vertex_spec(
                    tilesize as int,
                    w as int,
                    h as int,
                    v,
                ),
        decreases h + 1 - y,
    {
        let mut x: u32 = 0;
        while x < w + 1
            invariant
                x <= w + 1,
                vertices@.len() == (y as int) * (wp1 as int) + x as int,
                forall|v: int|
                    0 <= v < vertices@.len() ==> #[trigger] vertices@[v] == vertex_spec(
                        tilesize as int,
                        w as int,
                        h as int,
                        v,
                    ),
            decreases w + 1 - x,
        {
            proof {
                assert(((y as int) + 1) * (wp1 as int) <= (hp1 as int) * (wp1 as int)
                    && (y as int) * (wp1 as int) + x as int + 1 <= ((y as int) + 1) * (wp1 as int))
                    by (nonlinear_arith)
                    requires
                        y as int + 1 <= hp1 as int,
                        x as int + 1 <= wp1 as int,
                        0 <= y,
                        0 <= x,
                        1 <= wp1,
                ;
                lemma_vertex_spec_at(tilesize as int, w as int, h as int, x as int, y as int);
            }
            let px = axis_position(tilesize, w, x);
            let py = axis_position(tilesize, h, y);
            vertices.push(
                PosTex { pos_x: px, pos_y: py, pos_z: 0, tex_u: x, tex_v: h - y },
            );
            x = x + 1;
        }
        proof {
            assert(((y as int) + 1) * (wp1 as int) == (y as int) * (wp1 as int) + (wp1 as int))
                by (nonlinear_arith);
        }
        y = y + 1;
    }
    proof {
        assert(((h as int) + 1) * (wp1 as int) == ((w as int) + 1) * ((h as int) + 1))
            by (nonlinear_arith)
            requires
                wp1 as int == (w as int) + 1,
        ;
    }
    let indices = plane_triangle_indices(w as usize, h as usize);
    proof {
        assert((w as usize as int) * (h as usize as int) * 6 == (w as int) * (h as int) * 6)
            by (nonlinear_arith);
        assert forall|k: int| 0 <= k < indices@.len() implies 0 <= #[trigger] plane_index_at(
            w as int,
            k,
        ) < ((w as int) + 1) * ((h as int) + 1) by {
            lemma_plane_index_in_bounds(w as int, h as int, k);
        }
    }
    TilemapMesh { vertices, indices }
}

/// The all-zero vertex that an out-of-bounds triangulation index degrades
/// to.
pub open spec fn zero_vertex() -> PosTex {
    PosTex { pos_x: 0, pos_y: 0, pos_z: 0, tex_u: 0, tex_v: 0 }
}

/// The expanded (non-indexed) triangle list of the tilemap plane: entry `k`
/// is the shared vertex named by index `k` of the triangle stream, degrading
/// to the zero vertex should an index fall outside the shared-vertex array.
pub open spec fn expanded_plane_spec(tilesize: int, w: int, h: int) -> Seq<PosTex> {
    Seq::new(
        (w * h * 6) as nat,
        |k: int|
            {
                let i = plane_index_at(w, k);
                if 0 <= i < (w + 1) * (h + 1) {
                    vertex_spec(tilesize, w, h, i)
                } else {
                    zero_vertex()
                }
            },
    )
}

/// Builds the tilemap plane as a flat, duplicated-vertex triangle list, for
/// pipelines that draw non-indexed: `tilemap_width * tilemap_height * 6`
/// vertices, two triangles per cell.
#[verifier::loop_isolation(false)]
pub fn generate_tilemap_plane(tilesize: u32, tilemap_width: u32, tilemap_height: u32) -> (verts:
    Vec<PosTex>)
    requires
        mesh_dims_ok(tilesize as int, tilemap_width as int, tilemap_height as int),
    ensures
        verts@.len() == tilemap_width * tilemap_height * 6,
        verts@ == expanded_plane_spec(tilesize as int, tilemap_width as int, tilemap_height as int),
{
    let mesh = generate_tilemap_mesh(tilesize, tilemap_width, tilemap_height);
    let mut verts: Vec<PosTex> = Vec::new();
    let mut k: usize = 0;
    while k < mesh.indices.len()
        invariant
            k <= mesh.indices@.len(),
            verts@.len() == k,
            forall|j: int|
                0 <= j < k ==> #[trigger] verts@[j] == expanded_plane_spec(
                    tilesize as int,
                    tilemap_width as int,
                    tilemap_height as int,
                )[j],
        decreases mesh.indices@.len() - k,
    {
        let i = mesh.indices[k];
        if i < mesh.vertices.len() {
            let v = mesh.vertices[i];
            verts.push(v);
        } else {
            verts.push(PosTex { pos_x: 0, pos_y: 0, pos_z: 0, tex_u: 0, tex_v: 0 });
        }
        k = k + 1;
    }
    proof {
        assert(verts@ =~= expanded_plane_spec(
            tilesize as int,
            tilemap_width as int,
            tilemap_height as int,
        ));
    }
    verts
}

/// Mesh building is deterministic: the mesh is a function of the tile size
/// and grid dimensions alone, so building the same plane twice yields
/// identical vertex lists.
pub proof fn lemma_plane_deterministic(
    m1: Seq<PosTex>,
    m2: Seq<PosTex>,
    tilesize: int,
    w: int,
    h: int,
)
    requires
        m1 == expanded_plane_spec(tilesize, w, h),
        m2 == expanded_plane_spec(tilesize, w, h),
    ensures
        m1 == m2,
{
}

} // verus!
