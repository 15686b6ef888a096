use tilemap_render::atlas::TileCell;
use tilemap_render::tilemap::{TilemapDimensions, TilemapTiles, TilesheetDimensions};
use tilemap_render::tilemap_pass::{
    DrawTilemap, FrameInput, MeshStatus, PassOutcome, TilemapEntity, ViewMatrices,
};

fn entity(mesh: MeshStatus, texture_loaded: bool) -> TilemapEntity {
    TilemapEntity {
        mesh,
        texture_loaded,
        dimensions: TilemapDimensions {
            width: 1,
            height: 1,
        },
        tilesheet: TilesheetDimensions {
            width: 2,
            height: 2,
        },
        tiles: TilemapTiles {
            tiles: vec![TileCell { col: 0, row: 1 }],
        },
    }
}

fn frame(entities: Vec<TilemapEntity>) -> FrameInput {
    FrameInput {
        active_camera: None,
        cameras: vec![],
        default_texture_loaded: true,
        entities,
    }
}

#[test]
fn new_pass_is_the_default_pass() {
    assert_eq!(DrawTilemap::new(), DrawTilemap {});
}

#[test]
fn compiled_layout_matches_the_shader_contract() {
    let effect = DrawTilemap::new().compile();
    assert_eq!(effect.vertex_args_size, 3 * 4 * 4 * 4);
    assert_eq!(effect.vertex_stride, (3 + 2) * 4);
    assert_eq!(effect.tile_map_buffer_size, 4096 * 16);
    assert_eq!(effect.fragment_args_size, 2 * 16);
    assert!(effect.depth_less_equal_write);
}

#[test]
fn no_camera_still_issues_the_draw_call() {
    let pass = DrawTilemap::new();
    let f = frame(vec![entity(MeshStatus::Ready, true)]);
    assert!(f.check_wf());
    let out = pass.apply(&f);
    assert_eq!(out.outcome, PassOutcome::Completed);
    assert_eq!(out.commands.len(), 1);
    assert_eq!(out.commands[0].entity, 0);
    assert_eq!(out.commands[0].view, ViewMatrices::Identity);
}

#[test]
fn active_camera_wins_over_the_first_available() {
    let pass = DrawTilemap::new();
    let mut f = frame(vec![entity(MeshStatus::Ready, true)]);
    f.cameras = vec![5, 7];
    f.active_camera = Some(7);
    let out = pass.apply(&f);
    assert_eq!(out.commands[0].view, ViewMatrices::FromCamera { entity: 7 });
}

#[test]
fn unusable_active_camera_falls_back_to_the_first() {
    let pass = DrawTilemap::new();
    let mut f = frame(vec![entity(MeshStatus::Ready, true)]);
    f.cameras = vec![5, 7];
    f.active_camera = Some(9);
    let out = pass.apply(&f);
    assert_eq!(out.commands[0].view, ViewMatrices::FromCamera { entity: 5 });
}

#[test]
fn unresolved_mesh_skips_only_that_entity() {
    let pass = DrawTilemap::new();
    let f = frame(vec![
        entity(MeshStatus::Ready, true),
        entity(MeshStatus::NotLoaded, true),
        entity(MeshStatus::Ready, true),
    ]);
    let out = pass.apply(&f);
    assert_eq!(out.outcome, PassOutcome::Completed);
    let drawn: Vec<usize> = out.commands.iter().map(|c| c.entity).collect();
    assert_eq!(drawn, vec![0, 2]);
}

#[test]
fn missing_vertex_buffer_aborts_but_keeps_prior_draws() {
    let pass = DrawTilemap::new();
    let f = frame(vec![
        entity(MeshStatus::Ready, true),
        entity(MeshStatus::MissingVertexBuffer, true),
        entity(MeshStatus::Ready, true),
    ]);
    let out = pass.apply(&f);
    assert_eq!(
        out.outcome,
        PassOutcome::AbortedMissingVertexBuffer { entity: 1 }
    );
    let drawn: Vec<usize> = out.commands.iter().map(|c| c.entity).collect();
    assert_eq!(drawn, vec![0]);
}

#[test]
fn unresolvable_texture_aborts_the_frame() {
    let pass = DrawTilemap::new();
    let mut f = frame(vec![entity(MeshStatus::Ready, false)]);
    f.default_texture_loaded = false;
    let out = pass.apply(&f);
    assert_eq!(
        out.outcome,
        PassOutcome::AbortedTextureUnresolved { entity: 0 }
    );
    assert!(out.commands.is_empty());
}

#[test]
fn missing_material_texture_falls_back_to_the_default() {
    let pass = DrawTilemap::new();
    let f = frame(vec![entity(MeshStatus::Ready, false)]);
    let out = pass.apply(&f);
    assert_eq!(out.outcome, PassOutcome::Completed);
    assert!(out.commands[0].use_default_texture);
}

#[test]
fn fragment_arguments_carry_the_entity_dimensions() {
    let pass = DrawTilemap::new();
    let f = frame(vec![entity(MeshStatus::Ready, true)]);
    let out = pass.apply(&f);
    assert_eq!(
        out.commands[0].world_size,
        TilemapDimensions {
            width: 1,
            height: 1
        }
    );
    assert_eq!(
        out.commands[0].tilesheet_size,
        TilesheetDimensions {
            width: 2,
            height: 2
        }
    );
}
