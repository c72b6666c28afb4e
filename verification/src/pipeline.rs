//! The shared render pipeline. One `Pipeline` owns the handle of the
//! compiled GPU pipeline-state object and the single mutable per-draw data
//! record. Heterogeneous entities drive it through two capability traits —
//! `ModelSlice` supplies the index range, `ModelData` overwrites the record
//! fields the entity owns — and `draw` composes them into one draw call.
//!
//! Values the camera collaborator computes (the view-projection matrix and
//! the eye position) pass through as opaque handles; vertex buffers, index
//! buffers, textures and the pipeline state itself are handles the
//! embedding program assigned at upload time. Poses and the light
//! direction are fixed-point integers that the embedding turns into
//! matrices at submission time.

use vstd::prelude::*;

verus! {

/// A fixed-point 3-vector. Positions and velocities are in micro-units;
/// rotation axes and the light direction are in milli-units.
#[derive(Clone, Copy, Debug, PartialEq, Eq, Structural)]
pub struct Vec3Fixed {
    pub x: i64,
    pub y: i64,
    pub z: i64,
}

/// The model pose a mesh entity writes each frame: translation
/// (micro-units), a rotation of `angle_milli` milli-radians about `axis`,
/// and a uniform scale in milli-units. The embedding program derives the
/// model and normal matrices from it.
#[derive(Clone, Copy, Debug, PartialEq, Eq, Structural)]
pub struct ModelPose {
    pub position: Vec3Fixed,
    pub axis: Vec3Fixed,
    pub angle_milli: i64,
    pub scale_milli: i64,
}

/// The pose that moves nothing: zero translation and rotation, unit scale.
pub open spec fn identity_pose() -> ModelPose {
    ModelPose {
        position: Vec3Fixed { x: 0, y: 0, z: 0 },
        axis: Vec3Fixed { x: 0, y: 1000, z: 0 },
        angle_milli: 0,
        scale_milli: 1000,
    }
}

/// The index range of one draw: `start..end` within the index buffer named
/// by `buffer`.
#[derive(Clone, Copy, Debug, PartialEq, Eq, Structural)]
pub struct IndexSlice {
    pub start: u32,
    pub end: u32,
    pub buffer: u64,
}

/// The single mutable per-draw payload of a pipeline. Mesh entities own
/// `vbuf`, `pose` and `texture`; the scene background owns `mvp`, `camera`
/// and `light`. It is overwritten field-wise immediately before each draw
/// call; nothing written for one draw may be assumed to survive another.
#[derive(Clone, Copy, Debug, PartialEq, Eq, Structural)]
pub struct DrawDataRecord {
    pub vbuf: u64,
    pub mvp: u64,
    pub pose: ModelPose,
    pub camera: u64,
    pub light: Vec3Fixed,
    pub texture: u64,
}

/// One recorded draw call: the entity's index range, the shared pipeline
/// state, and the record exactly as the entity's fill left it. The
/// embedding program submits it to the GPU.
#[derive(Clone, Copy, Debug, PartialEq, Eq, Structural)]
pub struct DrawCall {
    pub slice: IndexSlice,
    pub state: u64,
    pub record: DrawDataRecord,
}

/// The capability of exposing an index range to draw.
pub trait ModelSlice {
    spec fn spec_indices(&self) -> IndexSlice;

    fn indices(&self) -> (r: IndexSlice)
        ensures
            r == self.spec_indices(),
    ;
}

/// The capability of filling the shared draw-data record: `spec_fill` says
/// exactly which fields the entity overwrites and which it leaves alone.
pub trait ModelData {
    spec fn spec_fill(&self, data: DrawDataRecord) -> DrawDataRecord;

    fn fill(&self, data: &mut DrawDataRecord)
        ensures
            *final(data) == self.spec_fill(*old(data)),
    ;
}

/// The pipeline's single record type, as an associated type.
pub trait PipelineData {
    type Data;
}

/// Driving a pipeline: filling its record from an entity, and composing
/// fill with the entity's index range into one draw call.
pub trait PipelineDraw {
    spec fn spec_state(&self) -> u64;

    spec fn spec_data(&self) -> DrawDataRecord;

    fn fill<S: ModelData>(&mut self, entity: &S)
        ensures
            final(self).spec_state() == old(self).spec_state(),
            final(self).spec_data() == entity.spec_fill(old(self).spec_data()),
    ;

    fn draw<S: ModelSlice + ModelData>(&mut self, entity: &S) -> (r: DrawCall)
        ensures
            final(self).spec_state() == old(self).spec_state(),
            final(self).spec_data() == entity.spec_fill(old(self).spec_data()),
            r == (DrawCall {
                slice: entity.spec_indices(),
                state: old(self).spec_state(),
                record: entity.spec_fill(old(self).spec_data()),
            }),
    ;
}

/// The shared pipeline: the immutable compiled pipeline-state handle and
/// the one mutable draw-data record. Entities share one `Pipeline` by
/// handle; the embedding wraps it in its mutual-exclusion cell.
pub struct Pipeline {
    pub state: u64,
    pub data: DrawDataRecord,
}

/// The record a fresh pipeline starts from: identity transforms, the
/// zero-sized placeholder texture and buffers, no light.
pub open spec fn init_record() -> DrawDataRecord {
    DrawDataRecord {
        vbuf: 0,
        mvp: 0,
        pose: identity_pose(),
        camera: 0,
        light: Vec3Fixed { x: 0, y: 0, z: 0 },
        texture: 0,
    }
}

impl PipelineData for Pipeline {
    type Data = DrawDataRecord;
}

impl Pipeline {
    /// Wraps a compiled pipeline-state handle with a freshly initialised
    /// draw-data record.
    pub fn new(state: u64) -> (r: Pipeline)
        ensures
            r.state == state,
            r.data == init_record(),
    {
        Pipeline {
            state,
            data: DrawDataRecord {
                vbuf: 0,
                mvp: 0,
                pose: ModelPose {
                    position: Vec3Fixed { x: 0, y: 0, z: 0 },
                    axis: Vec3Fixed { x: 0, y: 1000, z: 0 },
                    angle_milli: 0,
                    scale_milli: 1000,
                },
                camera: 0,
                light: Vec3Fixed { x: 0, y: 0, z: 0 },
                texture: 0,
            },
        }
    }
}

impl PipelineDraw for Pipeline {
    open spec fn spec_state(&self) -> u64 {
        self.state
    }

    open spec fn spec_data(&self) -> DrawDataRecord {
        self.data
    }

    /// Lets the entity overwrite the fields it owns; every other field
    /// keeps its current value.
    fn fill<S: ModelData>(&mut self, entity: &S) {
        entity.fill(&mut self.data);
    }

    /// One draw: fills the record from the entity, then emits the draw
    /// call — the entity's index range, this pipeline's state, and the
    /// freshly filled record.
    fn draw<S: ModelSlice + ModelData>(&mut self, entity: &S) -> (r: DrawCall) {
        self.fill(entity);
        DrawCall { slice: entity.indices(), state: self.state, record: self.data }
    }
}

/// The one concrete pipeline of this renderer: the object pipeline.
pub type ObjectPipeline = Pipeline;

/// Builds the full-range slice over an uploaded index buffer: the whole
/// `0..count` range, as the loader's per-group index lists are drawn in
/// full.
pub fn load_indices(buffer: u64, count: u32) -> (r: IndexSlice)
    ensures
        r == (IndexSlice { start: 0, end: count, buffer }),
{
    IndexSlice { start: 0, end: count, buffer }
}

} // verus!
