use tilemap_render::mesh::{generate_tilemap_mesh, generate_tilemap_plane, PosTex};

#[test]
fn shared_vertex_and_triangle_counts() {
    let mesh = generate_tilemap_mesh(16, 3, 2);
    assert_eq!(mesh.vertices.len(), (3 + 1) * (2 + 1));
    assert_eq!(mesh.indices.len(), 3 * 2 * 2 * 3);
    let mesh = generate_tilemap_mesh(1, 1, 1);
    assert_eq!(mesh.vertices.len(), 4);
    assert_eq!(mesh.indices.len(), 6);
}

#[test]
fn triangulation_references_shared_vertices() {
    // 2x2 grid: quad (0,0) has corners 0,1,4,3 in the 3-wide lattice and
    // splits into the triangles (0,1,4) and (4,3,0).
    let mesh = generate_tilemap_mesh(16, 2, 2);
    assert_eq!(
        mesh.indices,
        vec![
            0, 1, 4, 4, 3, 0, //
            1, 2, 5, 5, 4, 1, //
            3, 4, 7, 7, 6, 3, //
            4, 5, 8, 8, 7, 4,
        ]
    );
    assert!(mesh.indices.iter().all(|i| *i < mesh.vertices.len()));
}

#[test]
fn twelve_by_eight_corners_are_exact() {
    // A 12x8 grid of 32px tiles spans 384x256 pixels centered on the
    // origin, so the corner vertices sit at (+-192, +-128, 0).
    let mesh = generate_tilemap_mesh(32, 12, 8);
    let v = |x: usize, y: usize| mesh.vertices[y * 13 + x];
    assert_eq!(
        v(0, 0),
        PosTex {
            pos_x: -192,
            pos_y: -128,
            pos_z: 0,
            tex_u: 0,
            tex_v: 8
        }
    );
    assert_eq!(
        v(12, 0),
        PosTex {
            pos_x: 192,
            pos_y: -128,
            pos_z: 0,
            tex_u: 12,
            tex_v: 8
        }
    );
    assert_eq!(
        v(0, 8),
        PosTex {
            pos_x: -192,
            pos_y: 128,
            pos_z: 0,
            tex_u: 0,
            tex_v: 0
        }
    );
    assert_eq!(
        v(12, 8),
        PosTex {
            pos_x: 192,
            pos_y: 128,
            pos_z: 0,
            tex_u: 12,
            tex_v: 0
        }
    );
}

#[test]
fn expanded_plane_duplicates_shared_vertices() {
    let mesh = generate_tilemap_mesh(32, 12, 8);
    let plane = generate_tilemap_plane(32, 12, 8);
    assert_eq!(plane.len(), 12 * 8 * 6);
    for (k, idx) in mesh.indices.iter().enumerate() {
        assert_eq!(plane[k], mesh.vertices[*idx]);
    }
    // The first expanded vertex is the bottom-left corner.
    assert_eq!(plane[0].pos_x, -192);
    assert_eq!(plane[0].pos_y, -128);
}

#[test]
fn texture_coordinates_count_grid_cells_flipped() {
    let mesh = generate_tilemap_mesh(16, 4, 3);
    for y in 0..=3usize {
        for x in 0..=4usize {
            let v = mesh.vertices[y * 5 + x];
            assert_eq!(v.tex_u, x as u32);
            assert_eq!(v.tex_v, (3 - y) as u32);
        }
    }
}

#[test]
fn odd_pixel_extents_round_half_away_from_zero() {
    // A 3-cell axis of 5px tiles spans 15px: the center offset is 7.5,
    // so the end lattice points round to -8 and 8.
    let mesh = generate_tilemap_mesh(5, 3, 1);
    assert_eq!(mesh.vertices[0].pos_x, -8);
    assert_eq!(mesh.vertices[3].pos_x, 8);
    // Interior points: 5*1 - 7.5 = -2.5 -> -3; 5*2 - 7.5 = 2.5 -> 3.
    assert_eq!(mesh.vertices[1].pos_x, -3);
    assert_eq!(mesh.vertices[2].pos_x, 3);
}

#[test]
fn building_the_same_plane_twice_is_bit_identical() {
    let first = generate_tilemap_plane(32, 12, 8);
    let second = generate_tilemap_plane(32, 12, 8);
    assert_eq!(first, second);
    let m1 = generate_tilemap_mesh(32, 12, 8);
    let m2 = generate_tilemap_mesh(32, 12, 8);
    assert_eq!(m1, m2);
}
