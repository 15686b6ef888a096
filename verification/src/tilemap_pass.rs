//! The per-frame tilemap render pass, as a pure planning step: given the
//! frame's camera situation and the renderable tilemap entities, decide what
//! gets drawn, with which view matrices and texture, and in what order. The
//! pass is stateless between frames; the host executes the planned commands
//! (upload the transform matrices, push the texture and sampler, upload the
//! entity's tile table into the fixed-capacity buffer, upload the fragment
//! arguments, draw, release per-draw state) against its GPU encoder.
//!
//! Failure semantics: a mesh handle that does not resolve skips that entity
//! only; a missing vertex buffer or an unresolvable texture aborts the rest
//! of the frame, keeping the commands already planned; a missing camera
//! degrades to identity matrices and never fails.

use crate::tilemap::{TilemapDimensions, TilemapTiles, TilesheetDimensions, TILE_TABLE_CAPACITY};
use vstd::prelude::*;

verus! {

/// How far an entity's mesh handle resolves: to loaded GPU mesh data with a
/// vertex buffer for the pass's attribute layout, to mesh data without one,
/// or not at all.
#[derive(Clone, Copy, PartialEq, Eq, Structural, Debug)]
pub enum MeshStatus {
    NotLoaded,
    MissingVertexBuffer,
    Ready,
}

/// One renderable tilemap entity of a frame: the resolution status of its
/// mesh and material texture, and the records built at load time.
#[derive(Clone, PartialEq, Eq, Debug)]
pub struct TilemapEntity {
    pub mesh: MeshStatus,
    pub texture_loaded: bool,
    pub dimensions: TilemapDimensions,
    pub tilesheet: TilesheetDimensions,
    pub tiles: TilemapTiles,
}

impl TilemapEntity {
    /// The load-time consistency invariant: one table record per grid cell,
    /// within the fixed buffer capacity. A table too long for the buffer
    /// must have been rejected when the entity was built, never here.
    pub open spec fn wf(self) -> bool {
        &&& self.tiles.tiles@.len() == self.dimensions.width * self.dimensions.height
        &&& self.tiles.tiles@.len() <= TILE_TABLE_CAPACITY
    }

    /// Decides the load-time consistency invariant, for callers outside the
    /// verified world.
    pub fn check_wf(&self) -> (b: bool)
        ensures
            b == self.wf(),
    {
        proof {
            assert((self.dimensions.width as int) * (self.dimensions.height as int)
                <= 0xFFFF_FFFF_FFFF_FFFF) by (nonlinear_arith)
                requires
                    self.dimensions.width <= 0xFFFF_FFFF,
                    self.dimensions.height <= 0xFFFF_FFFF,
            ;
        }
        let cells = (self.dimensions.width as u64) * (self.dimensions.height as u64);
        let len = self.tiles.tiles.len();
        (len as u64) == cells && (len as u64) <= TILE_TABLE_CAPACITY
    }
}

/// Everything the pass reads in one frame: the designated active camera
/// entity if any, the entities that have both a camera and a transform (in
/// iteration order), whether the default material's texture is loaded, and
/// the renderable tilemap entities in iteration order.
#[derive(Clone, PartialEq, Eq, Debug)]
pub struct FrameInput {
    pub active_camera: Option<usize>,
    pub cameras: Vec<usize>,
    pub default_texture_loaded: bool,
    pub entities: Vec<TilemapEntity>,
}

impl FrameInput {
    /// Every entity satisfies the load-time consistency invariant.
    pub open spec fn wf(self) -> bool {
        forall|i: int| 0 <= i < self.entities@.len() ==> (#[trigger] self.entities@[i]).wf()
    }

    /// Decides the frame invariant, for callers outside the verified world.
    pub fn check_wf(&self) -> (b: bool)
        ensures
            b == self.wf(),
    {
        let mut i: usize = 0;
        while i < self.entities.len()
            invariant
                i <= self.entities@.len(),
                forall|j: int| 0 <= j < i ==> (#[trigger] self.entities@[j]).wf(),
            decreases self.entities@.len() - i,
        {
            if !self.entities[i].check_wf() {
                return false;
            }
            i = i + 1;
        }
        true
    }
}

/// Where a draw's projection and view matrices come from: a camera entity
/// (its projection, and the inverse of its world transform), or the
/// identity matrices when no camera is available.
#[derive(Clone, Copy, PartialEq, Eq, Structural, Debug)]
pub enum ViewMatrices {
    FromCamera { entity: usize },
    Identity,
}

/// One planned draw: which entity to draw, the view matrices to bind (the
/// model matrix is always the entity's own world transform), whether the
/// default material's texture stands in for the entity's, and the fragment
/// arguments `(world_size, tilesheet_size)` to upload beside the entity's
/// tile table.
#[derive(Clone, Copy, PartialEq, Eq, Structural, Debug)]
pub struct DrawCommand {
    pub entity: usize,
    pub view: ViewMatrices,
    pub use_default_texture: bool,
    pub world_size: TilemapDimensions,
    pub tilesheet_size: TilesheetDimensions,
}

/// How the frame ended: every entity handled, or aborted at an entity whose
/// vertex buffer or texture could not be resolved (commands planned before
/// the abort stand).
#[derive(Clone, Copy, PartialEq, Eq, Structural, Debug)]
pub enum PassOutcome {
    Completed,
    AbortedMissingVertexBuffer { entity: usize },
    AbortedTextureUnresolved { entity: usize },
}

/// The frame's plan: the draw commands in order, and how the pass ended.
#[derive(Clone, PartialEq, Eq, Debug)]
pub struct FrameOutput {
    pub commands: Vec<DrawCommand>,
    pub outcome: PassOutcome,
}

/// What the pass does with one entity: draw it, skip it (mesh not loaded),
/// or abort the frame (vertex buffer or texture unresolvable).
#[derive(Clone, Copy, PartialEq, Eq, Structural, Debug)]
pub enum EntityAction {
    Skip,
    AbortVertexBuffer,
    AbortTexture,
    Draw,
}

/// The designated active camera is usable: it names an entity that has both
/// a camera and a transform.
pub open spec fn active_camera_valid(frame: FrameInput) -> bool {
    frame.active_camera matches Some(e) && frame.cameras@.contains(e)
}

/// The camera the frame falls back to without a usable active camera: the
/// first available camera, or the identity matrices if there is none.
pub open spec fn fallback_camera_spec(frame: FrameInput) -> ViewMatrices {
    if frame.cameras@.len() > 0 {
        ViewMatrices::FromCamera { entity: frame.cameras@[0] }
    } else {
        ViewMatrices::Identity
    }
}

/// The view matrices every draw of the frame binds: the active camera if
/// usable, else the first available camera, else identity (a missing camera
/// degrades the frame, it never fails it).
pub open spec fn camera_choice_spec(frame: FrameInput) -> ViewMatrices {
    match frame.active_camera {
        Some(e) => if frame.cameras@.contains(e) {
            ViewMatrices::FromCamera { entity: e }
        } else {
            fallback_camera_spec(frame)
        },
        None => fallback_camera_spec(frame),
    }
}

/// What the pass does with entity `i`: skip it when its mesh is not loaded,
/// abort on a missing vertex buffer, abort when neither its texture nor the
/// default one resolves, draw otherwise.
pub open spec fn entity_action(frame: FrameInput, i: int) -> EntityAction {
    let e = frame.entities@[i];
    if e.mesh is NotLoaded {
        EntityAction::Skip
    } else if e.mesh is MissingVertexBuffer {
        EntityAction::AbortVertexBuffer
    } else if !e.texture_loaded && !frame.default_texture_loaded {
        EntityAction::AbortTexture
    } else {
        EntityAction::Draw
    }
}

/// Entity `i` aborts the frame.
pub open spec fn aborts_at(frame: FrameInput, i: int) -> bool {
    entity_action(frame, i) is AbortVertexBuffer || entity_action(frame, i) is AbortTexture
}

/// The command that draws entity `i`.
pub open spec fn draw_command_spec(frame: FrameInput, i: int) -> DrawCommand {
    let e = frame.entities@[i];
    DrawCommand {
        entity: i as usize,
        view: camera_choice_spec(frame),
        use_default_texture: !e.texture_loaded,
        world_size: e.dimensions,
        tilesheet_size: e.tilesheet,
    }
}

/// The first frame-aborting entity at or after `i`, or the entity count if
/// none aborts.
pub open spec fn pass_cut_from(frame: FrameInput, i: int) -> int
    decreases frame.entities@.len() - i when 0 <= i <= frame.entities@.len()
{
    if i >= frame.entities@.len() {
        i
    } else if aborts_at(frame, i) {
        i
    } else {
        pass_cut_from(frame, i + 1)
    }
}

/// Where the frame stops: the first aborting entity, or the entity count.
pub open spec fn pass_cut_spec(frame: FrameInput) -> int {
    pass_cut_from(frame, 0)
}

/// The commands drawn among the first `n` entities, in entity order.
pub open spec fn commands_upto(frame: FrameInput, n: int) -> Seq<DrawCommand>
    decreases n,
{
    if n <= 0 {
        Seq::empty()
    } else if entity_action(frame, n - 1) is Draw {
        commands_upto(frame, n - 1).push(draw_command_spec(frame, n - 1))
    } else {
        commands_upto(frame, n - 1)
    }
}

/// The frame's full command plan: one command per drawable entity before
/// the cut point, in entity order.
pub open spec fn pass_commands_spec(frame: FrameInput) -> Seq<DrawCommand> {
    commands_upto(frame, pass_cut_spec(frame))
}

/// How the frame ends: completed if no entity aborts, else the abort at the
/// cut point.
pub open spec fn pass_outcome_spec(frame: FrameInput) -> PassOutcome {
    let cut = pass_cut_spec(frame);
    if cut >= frame.entities@.len() {
        PassOutcome::Completed
    } else if entity_action(frame, cut) is AbortVertexBuffer {
        PassOutcome::AbortedMissingVertexBuffer { entity: cut as usize }
    } else {
        PassOutcome::AbortedTextureUnresolved { entity: cut as usize }
    }
}

/// True iff `cameras` holds the entity id `e`.
fn contains_entity(cameras: &Vec<usize>, e: usize) -> (found: bool)
    ensures
        found == cameras@.contains(e),
{
    let mut i: usize = 0;
    while i < cameras.len()
        invariant
            i <= cameras@.len(),
            forall|j: int| 0 <= j < i ==> cameras@[j] != e,
        decreases cameras@.len() - i,
    {
        if cameras[i] == e {
            assert(cameras@[i as int] == e);
            return true;
        }
        i = i + 1;
    }
    assert(!cameras@.contains(e));
    false
}

/// Resolves the camera for the frame: the active camera if it has both a
/// camera and a transform, else the first available camera, else identity.
fn resolve_camera(frame: &FrameInput) -> (view: ViewMatrices)
    ensures
        view == camera_choice_spec(*frame),
{
    match frame.active_camera {
        Some(e) => {
            if contains_entity(&frame.cameras, e) {
                return ViewMatrices::FromCamera { entity: e };
            }
        },
        None => {},
    }
    if frame.cameras.len() > 0 {
        ViewMatrices::FromCamera { entity: frame.cameras[0] }
    } else {
        ViewMatrices::Identity
    }
}

/// When no entity before `i` aborts and `i` is the entity count or aborts,
/// `i` is the cut point, seen from any start at or before `i`.
proof fn lemma_cut_pinpoint_from(frame: FrameInput, k: int, i: int)
    requires
        0 <= k <= i <= frame.entities@.len(),
        forall|j: int| k <= j < i ==> !aborts_at(frame, j),
        i == frame.entities@.len() || aborts_at(frame, i),
    ensures
        pass_cut_from(frame, k) == i,
    decreases i - k,
{
    if k < i {
        lemma_cut_pinpoint_from(frame, k + 1, i);
    }
}

/// When no entity before `i` aborts and `i` is the entity count or aborts,
/// `i` is the cut point.
proof fn lemma_cut_pinpoint(frame: FrameInput, i: int)
    requires
        0 <= i <= frame.entities@.len(),
        forall|j: int| 0 <= j < i ==> !aborts_at(frame, j),
        i == frame.entities@.len() || aborts_at(frame, i),
    ensures
        pass_cut_spec(frame) == i,
{
    lemma_cut_pinpoint_from(frame, 0, i);
}

/// The cut point lies between the start index and the entity count.
proof fn lemma_cut_from_bounds(frame: FrameInput, i: int)
    requires
        0 <= i <= frame.entities@.len(),
    ensures
        i <= pass_cut_from(frame, i) <= frame.entities@.len(),
    decreases frame.entities@.len() - i,
{
    if i < frame.entities@.len() && !aborts_at(frame, i) {
        lemma_cut_from_bounds(frame, i + 1);
    }
}

/// When every one of the first `n` entities is drawable, the plan for them
/// is one command per entity, in entity order.
proof fn lemma_commands_upto_all_draw(frame: FrameInput, n: int)
    requires
        0 <= n <= frame.entities@.len(),
        forall|j: int| 0 <= j < n ==> #[trigger] entity_action(frame, j) is Draw,
    ensures
        commands_upto(frame, n).len() == n,
        forall|k: int|
            0 <= k < n ==> #[trigger] commands_upto(frame, n)[k] == draw_command_spec(frame, k),
    decreases n,
{
    if n > 0 {
        lemma_commands_upto_all_draw(frame, n - 1);
        let prev = commands_upto(frame, n - 1);
        let cur = commands_upto(frame, n);
        assert(cur == prev.push(draw_command_spec(frame, n - 1)));
        assert forall|k: int| 0 <= k < n implies #[trigger] cur[k] == draw_command_spec(
            frame,
            k,
        ) by {
            if k < n - 1 {
                assert(cur[k] == prev[k]);
            }
        }
    }
}

/// Which entities the plan for the first `n` entities draws: entity `j`
/// appears exactly when `j` is among them and its action is to draw.
proof fn lemma_commands_upto_membership(frame: FrameInput, n: int, j: int)
    requires
        0 <= n <= frame.entities@.len(),
        0 <= j,
    ensures
        (exists|k: int|
            0 <= k < commands_upto(frame, n).len() && (#[trigger] commands_upto(frame, n)[k]).entity
                == j) <==> (j < n && entity_action(frame, j) is Draw),
    decreases n,
{
    vstd::std_specs::vec::axiom_spec_len(&frame.entities);
    let cur = commands_upto(frame, n);
    if n > 0 {
        let prev = commands_upto(frame, n - 1);
        lemma_commands_upto_membership(frame, n - 1, j);
        if entity_action(frame, n - 1) is Draw {
            let cmd = draw_command_spec(frame, n - 1);
            assert(cur == prev.push(cmd));
            assert(forall|k: int| 0 <= k < prev.len() ==> #[trigger] cur[k] == prev[k]);
            assert(cur[prev.len() as int] == cmd);
            assert(cmd.entity == n - 1);
            if j == n - 1 {
                assert((cur[prev.len() as int]).entity == j);
            } else {
                if exists|k: int| 0 <= k < cur.len() && (#[trigger] cur[k]).entity == j {
                    let k = choose|k: int| 0 <= k < cur.len() && (#[trigger] cur[k]).entity == j;
                    if k < prev.len() {
                        assert((prev[k]).entity == j);
                    } else {
                        assert(cur[k] == cmd);
                        assert(false);
                    }
                }
                if j < n - 1 && entity_action(frame, j) is Draw {
                    let k = choose|k: int|
                        0 <= k < prev.len() && (#[trigger] prev[k]).entity == j;
                    assert((cur[k]).entity == j);
                }
            }
        } else {
            assert(cur == prev);
        }
    }
}

/// With no camera present at all, the pass still draws rather than failing:
/// the frame completes, every drawable entity gets its draw call, and every
/// planned draw binds the identity projection and view matrices.
pub proof fn lemma_no_camera_still_draws(frame: FrameInput)
    requires
        frame.cameras@.len() == 0,
        forall|j: int|
            0 <= j < frame.entities@.len() ==> #[trigger] entity_action(frame, j) is Draw,
    ensures
        camera_choice_spec(frame) is Identity,
        pass_outcome_spec(frame) is Completed,
        pass_commands_spec(frame).len() == frame.entities@.len(),
        forall|k: int|
            0 <= k < pass_commands_spec(frame).len() ==> (#[trigger] pass_commands_spec(
                frame,
            )[k]).view is Identity,
{
    let len = frame.entities@.len() as int;
    if let Some(e) = frame.active_camera {
        assert(!frame.cameras@.contains(e));
    }
    assert forall|j: int| 0 <= j < len implies !aborts_at(frame, j) by {
        assert(entity_action(frame, j) is Draw);
    }
    lemma_cut_pinpoint(frame, len);
    lemma_commands_upto_all_draw(frame, len);
}

/// An entity whose mesh handle does not resolve is skipped, and skipped
/// alone: no planned command draws it, while every drawable entity before
/// the frame's cut point still gets its draw call, prior draws unaffected.
pub proof fn lemma_unresolved_mesh_skips_one_entity(frame: FrameInput, i: int)
    requires
        0 <= i < frame.entities@.len(),
        frame.entities@[i].mesh is NotLoaded,
    ensures
        forall|k: int|
            0 <= k < pass_commands_spec(frame).len() ==> (#[trigger] pass_commands_spec(
                frame,
            )[k]).entity != i,
        forall|j: int|
            0 <= j < pass_cut_spec(frame) && #[trigger] entity_action(frame, j) is Draw
                ==> exists|k: int|
                0 <= k < pass_commands_spec(frame).len() && (#[trigger] pass_commands_spec(
                    frame,
                )[k]).entity == j,
{
    let cut = pass_cut_spec(frame);
    lemma_cut_from_bounds(frame, 0);
    lemma_commands_upto_membership(frame, cut, i);
    assert(!(entity_action(frame, i) is Draw));
    assert forall|k: int|
        0 <= k < pass_commands_spec(frame).len() implies (#[trigger] pass_commands_spec(
        frame,
    )[k]).entity != i by {
        if (pass_commands_spec(frame)[k]).entity == i {
            assert(exists|k0: int|
                0 <= k0 < commands_upto(frame, cut).len() && (#[trigger] commands_upto(
                    frame,
                    cut,
                )[k0]).entity == i);
        }
    }
    assert forall|j: int|
        0 <= j < pass_cut_spec(frame) && #[trigger] entity_action(frame, j) is Draw
        implies exists|k: int|
        0 <= k < pass_commands_spec(frame).len() && (#[trigger] pass_commands_spec(
            frame,
        )[k]).entity == j by {
        lemma_commands_upto_membership(frame, cut, j);
    }
}

/// The tilemap render pass: one concrete vertex layout (position plus
/// texture coordinate), one draw call per renderable tilemap entity per
/// frame.
#[derive(Clone, Copy, PartialEq, Eq, Structural, Debug)]
pub struct DrawTilemap {}

impl Default for DrawTilemap {
    fn default() -> (pass: DrawTilemap)
        ensures
            pass == (DrawTilemap {  }),
    {
        DrawTilemap {  }
    }
}

/// The pipeline layout the pass is compiled against, stated as byte sizes:
/// the shader-buffer contract a host must match exactly.
#[derive(Clone, Copy, PartialEq, Eq, Structural, Debug)]
pub struct EffectDescriptor {
    /// Vertex-stage uniform block `{proj, view, model}`: three 4x4 matrices
    /// of 4-byte floats.
    pub vertex_args_size: usize,
    /// One interleaved vertex `(position: vec3, texcoord: vec2)` of 4-byte
    /// floats.
    pub vertex_stride: usize,
    /// The fixed-capacity tile-index buffer: `TILE_TABLE_CAPACITY` vec4
    /// entries of 4-byte floats.
    pub tile_map_buffer_size: usize,
    /// Fragment-stage uniform block `{world_size, tilesheet_size}`: two
    /// vec4 entries of 4-byte floats.
    pub fragment_args_size: usize,
    /// The color output is depth-tested less-equal with depth writes on.
    pub depth_less_equal_write: bool,
}

impl DrawTilemap {
    /// Create an instance of the tilemap pass.
    pub fn new() -> (pass: DrawTilemap)
        ensures
            pass == (DrawTilemap {  }),
    {
        DrawTilemap::default()
    }

    /// The pipeline layout of the pass. The capability check is done here,
    /// once at pipeline-build time: the layout is a single concrete vertex
    /// format, so there is nothing left to check per draw.
    pub fn compile(&self) -> (effect: EffectDescriptor)
        ensures
            effect == (EffectDescriptor {
                vertex_args_size: 192,
                vertex_stride: 20,
                tile_map_buffer_size: 65536,
                fragment_args_size: 32,
                depth_less_equal_write: true,
            }),
            effect.tile_map_buffer_size == 16 * TILE_TABLE_CAPACITY,
    {
        EffectDescriptor {
            vertex_args_size: 192,
            vertex_stride: 20,
            tile_map_buffer_size: 65536,
            fragment_args_size: 32,
            depth_less_equal_write: true,
        }
    }

    /// Plans one frame: resolves the camera once, then walks the entities
    /// in order, skipping those whose mesh is not loaded, aborting the rest
    /// of the frame at the first missing vertex buffer or unresolvable
    /// texture, and planning one draw for each remaining entity.
    pub fn apply(&self, frame: &FrameInput) -> (out: FrameOutput)
        requires
            frame.wf(),
        ensures
            out.commands@ == pass_commands_spec(*frame),
            out.outcome == pass_outcome_spec(*frame),
    {
        let view = resolve_camera(frame);
        let mut commands: Vec<DrawCommand> = Vec::new();
        let n = frame.entities.len();
        let mut i: usize = 0;
        while i < n
            invariant
                i <= n,
                n == frame.entities@.len(),
                view == camera_choice_spec(*frame),
                commands@ == commands_upto(*frame, i as int),
                forall|j: int| 0 <= j < i ==> !aborts_at(*frame, j),
            decreases n - i,
        {
            let e = &frame.entities[i];
            match e.mesh {
                MeshStatus::NotLoaded => {
                    assert(entity_action(*frame, i as int) is Skip);
                },
                MeshStatus::MissingVertexBuffer => {
                    proof {
                        lemma_cut_pinpoint(*frame, i as int);
                    }
                    return FrameOutput {
                        commands,
                        outcome: PassOutcome::AbortedMissingVertexBuffer { entity: i },
                    };
                },
                MeshStatus::Ready => {
                    let use_default = !e.texture_loaded;
                    if use_default && !frame.default_texture_loaded {
                        proof {
                            lemma_cut_pinpoint(*frame, i as int);
                        }
                        return FrameOutput {
                            commands,
                            outcome: PassOutcome::AbortedTextureUnresolved { entity: i },
                        };
                    }
                    commands.push(
                        DrawCommand {
                            entity: i,
                            view,
                            use_default_texture: use_default,
                            world_size: e.dimensions,
                            tilesheet_size: e.tilesheet,
                        },
                    );
                },
            }
            i = i + 1;
        }
        proof {
            lemma_cut_pinpoint(*frame, n as int);
        }
        FrameOutput { commands, outcome: PassOutcome::Completed }
    }
}

} // verus!
