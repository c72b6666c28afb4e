//! The drawable entities: a mesh piece (`ObjectData`), the procedural cube
//! (`Cube`), the multi-group archive model (`Object`, also under its
//! mascot alias `Mario`), and the camera-owned scene background
//! (`Scene`). Every entity references the shared pipeline by handle and
//! owns its transform; its per-frame update recomputes the pose from the
//! elapsed time the embedding passes in, in fixed-point arithmetic.

use vstd::prelude::*;

verus! {

use crate::loader::LoadedModel;
use crate::pipeline::{
    identity_pose,
    load_indices,
    DrawCall,
    DrawDataRecord,
    IndexSlice,
    ModelData,
    ModelPose,
    ModelSlice,
    Pipeline,
    PipelineDraw,
    Vec3Fixed,
};

/// What drawing one record-filling entity does to a pipeline: the record
/// is overwritten by the entity's fill, and one draw call over the
/// entity's index range is emitted.
pub open spec fn entity_draw<S: ModelSlice + ModelData>(e: S, p: Pipeline) -> (
    Pipeline,
    Seq<DrawCall>,
) {
    let d2 = e.spec_fill(p.data);
    (
        Pipeline { state: p.state, data: d2 },
        seq![DrawCall { slice: e.spec_indices(), state: p.state, record: d2 }],
    )
}

/// The capability of being drawn through the shared pipeline: `spec_draw`
/// gives the pipeline state left behind and the draw calls emitted, in
/// order.
pub trait Drawable {
    spec fn spec_draw(&self, p: Pipeline) -> (Pipeline, Seq<DrawCall>);

    fn draw(&self, pipe: &mut Pipeline) -> (r: Vec<DrawCall>)
        ensures
            *final(pipe) == self.spec_draw(*old(pipe)).0,
            r@ == self.spec_draw(*old(pipe)).1,
    ;
}

/// The longest supported animation clock, in milliseconds.
pub const MAX_SIM_MILLIS: u64 = 1_000_000_000;

/// The largest supported speed, in micro-units per millisecond.
pub const MAX_SPEED: i64 = 1_000_000;

/// The largest supported coordinate, in micro-units.
pub const MAX_COORD: i64 = 1_000_000_000_000_000;

/// The largest supported animation phase offset, in milliseconds.
pub const MAX_TIME_OFFSET: i64 = 1_000_000_000;

/// Whether a motion parameter set stays within the fixed-point range for
/// every supported time.
pub open spec fn motion_in_range(position: Vec3Fixed, velocity: Vec3Fixed, offset: i64) -> bool {
    &&& -MAX_COORD <= position.x <= MAX_COORD
    &&& -MAX_COORD <= position.y <= MAX_COORD
    &&& -MAX_COORD <= position.z <= MAX_COORD
    &&& -MAX_SPEED <= velocity.x <= MAX_SPEED
    &&& -MAX_SPEED <= velocity.y <= MAX_SPEED
    &&& -MAX_SPEED <= velocity.z <= MAX_SPEED
    &&& -MAX_TIME_OFFSET <= offset <= MAX_TIME_OFFSET
}

/// What an entity's pose is after `t` milliseconds: the translation has
/// advanced by `velocity * t`, the rotation angle is the elapsed time plus
/// the entity's phase offset (milli-radians), about the entity's axis, at
/// one-tenth scale.
pub open spec fn pose_after(
    position: Vec3Fixed,
    velocity: Vec3Fixed,
    axis: Vec3Fixed,
    offset: i64,
    t: u64,
    pose: ModelPose,
) -> bool {
    &&& pose.position.x == position.x + velocity.x * t
    &&& pose.position.y == position.y + velocity.y * t
    &&& pose.position.z == position.z + velocity.z * t
    &&& pose.axis == axis
    &&& pose.angle_milli == t + offset
    &&& pose.scale_milli == 100
}

/// `v * t`, proved free of overflow under the motion bounds.
fn scaled_velocity(v: i64, t: u64) -> (r: i64)
    requires
        -MAX_SPEED <= v <= MAX_SPEED,
        t <= MAX_SIM_MILLIS,
    ensures
        r == v * t,
        -MAX_SPEED * MAX_SIM_MILLIS <= r <= MAX_SPEED * MAX_SIM_MILLIS,
{
    proof {
        assert(v * (t as i64) <= MAX_SPEED * MAX_SIM_MILLIS && v * (t as i64) >= -MAX_SPEED
            * MAX_SIM_MILLIS) by (nonlinear_arith)
            requires
                -MAX_SPEED <= v <= MAX_SPEED,
                0 <= t as i64 <= MAX_SIM_MILLIS,
        ;
    }
    v * (t as i64)
}

/// Computes the pose of one entity after `t` milliseconds.
fn pose_at(position: Vec3Fixed, velocity: Vec3Fixed, axis: Vec3Fixed, offset: i64, t: u64) -> (r:
    ModelPose)
    requires
        motion_in_range(position, velocity, offset),
        t <= MAX_SIM_MILLIS,
    ensures
        pose_after(position, velocity, axis, offset, t, r),
{
    ModelPose {
        position: Vec3Fixed {
            x: position.x + scaled_velocity(velocity.x, t),
            y: position.y + scaled_velocity(velocity.y, t),
            z: position.z + scaled_velocity(velocity.z, t),
        },
        axis,
        angle_milli: (t as i64) + offset,
        scale_milli: 100,
    }
}

/// One material-homogeneous mesh piece: the shared pipeline and vertex
/// buffer by handle, its own index range and texture handle, and the pose
/// its owner animates.
#[derive(Clone, Copy, Debug, PartialEq, Eq, Structural)]
pub struct ObjectData {
    pub pipeline: u64,
    pub vertices: u64,
    pub indices: IndexSlice,
    pub texture: u64,
    pub pose: ModelPose,
}

impl ObjectData {
    /// Pairs uploaded buffers into one drawable piece, drawn over its full
    /// `0..index_count` range, at the identity pose.
    pub fn new(pipeline: u64, vertices: u64, index_buffer: u64, index_count: u32, texture: u64)
        -> (r: ObjectData)
        ensures
            r == (ObjectData {
                pipeline,
                vertices,
                indices: IndexSlice { start: 0, end: index_count, buffer: index_buffer },
                texture,
                pose: identity_pose(),
            }),
    {
        ObjectData {
            pipeline,
            vertices,
            indices: load_indices(index_buffer, index_count),
            texture,
            pose: ModelPose {
                position: Vec3Fixed { x: 0, y: 0, z: 0 },
                axis: Vec3Fixed { x: 0, y: 1000, z: 0 },
                angle_milli: 0,
                scale_milli: 1000,
            },
        }
    }

}

impl Drawable for ObjectData {
    open spec fn spec_draw(&self, p: Pipeline) -> (Pipeline, Seq<DrawCall>) {
        entity_draw(*self, p)
    }

    fn draw(&self, pipe: &mut Pipeline) -> (r: Vec<DrawCall>) {
        let call = pipe.draw(self);
        let mut out: Vec<DrawCall> = Vec::new();
        out.push(call);
        proof {
            assert(out@ =~= seq![call]);
        }
        out
    }
}

impl ModelSlice for ObjectData {
    open spec fn spec_indices(&self) -> IndexSlice {
        self.indices
    }

    fn indices(&self) -> (r: IndexSlice) {
        self.indices
    }
}

impl ModelData for ObjectData {
    /// A mesh piece owns the vertex buffer, pose and texture fields and
    /// leaves the camera-owned fields untouched.
    open spec fn spec_fill(&self, data: DrawDataRecord) -> DrawDataRecord {
        DrawDataRecord { vbuf: self.vertices, pose: self.pose, texture: self.texture, ..data }
    }

    fn fill(&self, data: &mut DrawDataRecord) {
        data.vbuf = self.vertices;
        data.pose = self.pose;
        data.texture = self.texture;
    }
}

/// The direction the scene lights the world from, in milli-units.
pub open spec fn light_direction() -> Vec3Fixed {
    Vec3Fixed { x: 2000, y: 0, z: 2000 }
}

/// The camera-owned background entity: it draws nothing (an empty index
/// range) but owns the view-projection, camera-position and light fields
/// of the shared record.
#[derive(Clone, Copy, Debug, PartialEq, Eq, Structural)]
pub struct Scene {
    pub pipeline: u64,
    pub indices: IndexSlice,
    pub mvp: u64,
    pub position: u64,
}

impl Scene {
    /// A scene over the shared pipeline, before any camera update: the
    /// empty index range and the zero camera handles.
    pub fn new(pipeline: u64) -> (r: Scene)
        ensures
            r == (Scene {
                pipeline,
                indices: IndexSlice { start: 0, end: 0, buffer: 0 },
                mvp: 0,
                position: 0,
            }),
    {
        Scene { pipeline, indices: IndexSlice { start: 0, end: 0, buffer: 0 }, mvp: 0, position: 0 }
    }

    /// Takes the camera collaborator's values for this frame: the
    /// view-projection matrix and the eye position, both by handle.
    pub fn update(&mut self, mvp: u64, position: u64)
        ensures
            *final(self) == (Scene { mvp, position, ..*old(self) }),
    {
        self.mvp = mvp;
        self.position = position;
    }

}

impl Drawable for Scene {
    open spec fn spec_draw(&self, p: Pipeline) -> (Pipeline, Seq<DrawCall>) {
        entity_draw(*self, p)
    }

    fn draw(&self, pipe: &mut Pipeline) -> (r: Vec<DrawCall>) {
        let call = pipe.draw(self);
        let mut out: Vec<DrawCall> = Vec::new();
        out.push(call);
        proof {
            assert(out@ =~= seq![call]);
        }
        out
    }
}

impl ModelSlice for Scene {
    open spec fn spec_indices(&self) -> IndexSlice {
        self.indices
    }

    fn indices(&self) -> (r: IndexSlice) {
        self.indices
    }
}

impl ModelData for Scene {
    /// The scene owns the view-projection, camera and light fields and
    /// leaves the mesh-owned fields untouched.
    open spec fn spec_fill(&self, data: DrawDataRecord) -> DrawDataRecord {
        DrawDataRecord { mvp: self.mvp, camera: self.position, light: light_direction(), ..data }
    }

    fn fill(&self, data: &mut DrawDataRecord) {
        data.mvp = self.mvp;
        data.camera = self.position;
        data.light = Vec3Fixed { x: 2000, y: 0, z: 2000 };
    }
}

/// The axis the cube spins about, in milli-units.
pub open spec fn cube_axis() -> Vec3Fixed {
    Vec3Fixed { x: 1000, y: 300, z: 300 }
}

/// The index table of the unit cube: six faces, two triangles each, over
/// the 24-vertex table the embedding program uploads.
pub open spec fn cube_index_table() -> Seq<u16> {
    seq![
        0u16, 1, 2, 2, 3, 0, 4, 6, 5, 6, 4, 7, 8, 9, 10, 10, 11, 8, 12, 14, 13, 14, 12, 15, 16,
        18, 17, 18, 16, 19, 20, 21, 22, 22, 23, 20,
    ]
}

/// The cube's index data, exactly `cube_index_table`: 36 indices, six
/// faces of two triangles.
pub fn cube_indices() -> (r: Vec<u16>)
    ensures
        r@ == cube_index_table(),
        r@.len() == 36,
{
    let r: Vec<u16> = vec![
        0u16, 1, 2, 2, 3, 0, 4, 6, 5, 6, 4, 7, 8, 9, 10, 10, 11, 8, 12, 14, 13, 14, 12, 15, 16,
        18, 17, 18, 16, 19, 20, 21, 22, 22, 23, 20,
    ];
    proof {
        assert(r@ =~= cube_index_table());
    }
    r
}

/// The procedural textured cube: one mesh piece plus its own motion
/// parameters.
#[derive(Clone, Copy, Debug, PartialEq, Eq, Structural)]
pub struct Cube {
    pub model: ObjectData,
    pub position: Vec3Fixed,
    pub velocity: Vec3Fixed,
    pub time_offset_milli: i64,
}

impl Cube {
    /// A cube over the shared pipeline from the uploaded cube buffers: the
    /// full 36-index range, at rest at the origin.
    pub fn new(pipeline: u64, vertices: u64, index_buffer: u64, texture: u64) -> (r: Cube)
        ensures
            r == (Cube {
                model: ObjectData {
                    pipeline,
                    vertices,
                    indices: IndexSlice { start: 0, end: 36, buffer: index_buffer },
                    texture,
                    pose: identity_pose(),
                },
                position: Vec3Fixed { x: 0, y: 0, z: 0 },
                velocity: Vec3Fixed { x: 0, y: 0, z: 0 },
                time_offset_milli: 0,
            }),
    {
        Cube {
            model: ObjectData::new(pipeline, vertices, index_buffer, 36, texture),
            position: Vec3Fixed { x: 0, y: 0, z: 0 },
            velocity: Vec3Fixed { x: 0, y: 0, z: 0 },
            time_offset_milli: 0,
        }
    }

    /// Recomputes the pose from the elapsed time: translation by the
    /// cube's own motion, rotation about the cube axis phase-shifted by
    /// its own offset. Nothing else changes.
    pub fn update(&mut self, t_millis: u64)
        requires
            motion_in_range(old(self).position, old(self).velocity, old(self).time_offset_milli),
            t_millis <= MAX_SIM_MILLIS,
        ensures
            pose_after(
                old(self).position,
                old(self).velocity,
                cube_axis(),
                old(self).time_offset_milli,
                t_millis,
                final(self).model.pose,
            ),
            final(self).model == (ObjectData { pose: final(self).model.pose, ..old(self).model }),
            final(self).position == old(self).position,
            final(self).velocity == old(self).velocity,
            final(self).time_offset_milli == old(self).time_offset_milli,
    {
        self.model.pose = pose_at(
            self.position,
            self.velocity,
            Vec3Fixed { x: 1000, y: 300, z: 300 },
            self.time_offset_milli,
            t_millis,
        );
    }

    /// A clone placed at its own position: it shares the pipeline,
    /// geometry and texture handles of the prototype and differs only in
    /// its motion parameters.
    pub fn clone_to(&self, position: Vec3Fixed) -> (r: Cube)
        ensures
            r == (Cube { position, ..*self }),
    {
        Cube {
            model: self.model,
            position,
            velocity: self.velocity,
            time_offset_milli: self.time_offset_milli,
        }
    }

}

impl Drawable for Cube {
    open spec fn spec_draw(&self, p: Pipeline) -> (Pipeline, Seq<DrawCall>) {
        entity_draw(self.model, p)
    }

    fn draw(&self, pipe: &mut Pipeline) -> (r: Vec<DrawCall>) {
        let call = pipe.draw(&self.model);
        let mut out: Vec<DrawCall> = Vec::new();
        out.push(call);
        proof {
            assert(out@ =~= seq![call]);
        }
        out
    }
}

/// The axis an archive model spins about, in milli-units.
pub open spec fn model_axis() -> Vec3Fixed {
    Vec3Fixed { x: 0, y: 1000, z: 0 }
}

/// A multi-group archive model: one mesh piece per render group, all
/// sharing the pipeline and vertex buffer, plus the model's own motion
/// parameters.
pub struct Object {
    pub groups: Vec<ObjectData>,
    pub position: Vec3Fixed,
    pub velocity: Vec3Fixed,
    pub time_offset_milli: i64,
}

/// The archive model under the name of its best-known payload.
pub type Mario = Object;

impl Object {
    /// Assembles the drawable model from a loaded model and the handles
    /// the embedding obtained by uploading it: the shared vertex buffer,
    /// one index buffer per render group, and one texture handle per
    /// decoded texture, in the loader's orders.
    pub fn new(
        pipeline: u64,
        vertices: u64,
        index_buffers: &Vec<u64>,
        texture_ids: &Vec<u64>,
        model: &LoadedModel,
    ) -> (r: Object)
        requires
            index_buffers@.len() == model.groups@.len(),
            forall|i: int|
                0 <= i < model.groups@.len() ==> (#[trigger] model.groups@[i]).texture
                    < texture_ids@.len(),
            forall|i: int|
                0 <= i < model.groups@.len() ==> (#[trigger] model.groups@[i]).indices@.len()
                    <= u32::MAX,
        ensures
            r.groups@.len() == model.groups@.len(),
            forall|i: int|
                0 <= i < model.groups@.len() ==> r.groups@[i] == (ObjectData {
                    pipeline,
                    vertices,
                    indices: IndexSlice {
                        start: 0,
                        end: (#[trigger] model.groups@[i]).indices@.len() as u32,
                        buffer: index_buffers@[i],
                    },
                    texture: texture_ids@[model.groups@[i].texture as int],
                    pose: identity_pose(),
                }),
            r.position == (Vec3Fixed { x: 0, y: 0, z: 0 }),
            r.velocity == (Vec3Fixed { x: 0, y: 0, z: 0 }),
            r.time_offset_milli == 0,
    {
        let mut groups: Vec<ObjectData> = Vec::new();
        let mut i: usize = 0;
        while i < model.groups.len()
            invariant
                0 <= i <= model.groups@.len(),
                index_buffers@.len() == model.groups@.len(),
                forall|k: int|
                    0 <= k < model.groups@.len() ==> (#[trigger] model.groups@[k]).texture
                        < texture_ids@.len(),
                forall|k: int|
                    0 <= k < model.groups@.len() ==> (#[trigger] model.groups@[k]).indices@.len()
                        <= u32::MAX,
                groups@.len() == i,
                forall|k: int|
                    0 <= k < i ==> groups@[k] == (ObjectData {
                        pipeline,
                        vertices,
                        indices: IndexSlice {
                            start: 0,
                            end: (#[trigger] model.groups@[k]).indices@.len() as u32,
                            buffer: index_buffers@[k],
                        },
                        texture: texture_ids@[model.groups@[k].texture as int],
                        pose: identity_pose(),
                    }),
            decreases model.groups.len() - i,
        {
            let g = &model.groups[i];
            let count = g.indices.len() as u32;
            groups.push(
                ObjectData::new(pipeline, vertices, index_buffers[i], count, texture_ids[g.texture]),
            );
            i = i + 1;
        }
        Object {
            groups,
            position: Vec3Fixed { x: 0, y: 0, z: 0 },
            velocity: Vec3Fixed { x: 0, y: 0, z: 0 },
            time_offset_milli: 0,
        }
    }

    /// Recomputes every group's pose from the elapsed time, by the model's
    /// own motion about the model axis. Nothing else changes.
    pub fn update(&mut self, t_millis: u64)
        requires
            motion_in_range(old(self).position, old(self).velocity, old(self).time_offset_milli),
            t_millis <= MAX_SIM_MILLIS,
        ensures
            final(self).groups@.len() == old(self).groups@.len(),
            forall|i: int|
                0 <= i < old(self).groups@.len() ==> final(self).groups@[i] == (ObjectData {
                    pose: final(self).groups@[i].pose,
                    ..old(self).groups@[i]
                }),
            forall|i: int|
                0 <= i < old(self).groups@.len() ==> pose_after(
                    old(self).position,
                    old(self).velocity,
                    model_axis(),
                    old(self).time_offset_milli,
                    t_millis,
                    (#[trigger] final(self).groups@[i]).pose,
                ),
            final(self).position == old(self).position,
            final(self).velocity == old(self).velocity,
            final(self).time_offset_milli == old(self).time_offset_milli,
    {
        let pose = pose_at(
            self.position,
            self.velocity,
            Vec3Fixed { x: 0, y: 1000, z: 0 },
            self.time_offset_milli,
            t_millis,
        );
        let mut i: usize = 0;
        while i < self.groups.len()
            invariant
                0 <= i <= self.groups@.len(),
                self.groups@.len() == old(self).groups@.len(),
                pose_after(
                    old(self).position,
                    old(self).velocity,
                    model_axis(),
                    old(self).time_offset_milli,
                    t_millis,
                    pose,
                ),
                forall|k: int|
                    i <= k < self.groups@.len() ==> #[trigger] self.groups@[k] == old(
                        self,
                    ).groups@[k],
                forall|k: int|
                    0 <= k < i ==> #[trigger] self.groups@[k] == (ObjectData {
                        pose: pose,
                        ..old(self).groups@[k]
                    }),
                self.position == old(self).position,
                self.velocity == old(self).velocity,
                self.time_offset_milli == old(self).time_offset_milli,
            decreases self.groups.len() - i,
        {
            let mut g = self.groups.remove(i);
            g.pose = pose;
            self.groups.insert(i, g);
            i = i + 1;
        }
    }

    /// A clone with its own motion parameters: it shares the pipeline,
    /// geometry and texture handles of the prototype.
    pub fn clone_to(&self, position: Vec3Fixed, velocity: Vec3Fixed, time_offset_milli: i64) -> (r:
        Object)
        ensures
            r.groups@ == self.groups@,
            r.position == position,
            r.velocity == velocity,
            r.time_offset_milli == time_offset_milli,
    {
        let mut groups: Vec<ObjectData> = Vec::new();
        let mut i: usize = 0;
        while i < self.groups.len()
            invariant
                0 <= i <= self.groups@.len(),
                groups@ == self.groups@.take(i as int),
            decreases self.groups.len() - i,
        {
            groups.push(self.groups[i]);
            proof {
                assert(self.groups@.take(i + 1) =~= self.groups@.take(i as int).push(
                    self.groups@[i as int],
                ));
            }
            i = i + 1;
        }
        proof {
            assert(self.groups@.take(i as int) =~= self.groups@);
        }
        Object { groups, position, velocity, time_offset_milli }
    }

    /// Loads a model archive: the loader's entry point on the model type,
    /// with `load_model`'s contract.
    pub fn load(archive: &Vec<u8>) -> (r: Result<
        LoadedModel,
        crate::loader::LoadError,
    >)
        ensures
            match r {
                Ok(m) => crate::loader::spec_load_model(archive@) == Ok::<
                    _,
                    crate::loader::LoadError,
                >(m@),
                Err(e) => crate::loader::spec_load_model(archive@) == Err::<
                    crate::loader::LoadedModelView,
                    _,
                >(e),
            },
    {
        crate::loader::load_model(archive)
    }
}

/// Drawing a model's groups from index `j` on, each fill building on the
/// record the previous group left.
pub open spec fn draw_groups_spec(groups: Seq<ObjectData>, p: Pipeline, j: int) -> (
    Pipeline,
    Seq<DrawCall>,
)
    decreases groups.len() - j,
{
    if j >= groups.len() {
        (p, seq![])
    } else {
        let step = entity_draw(groups[j], p);
        let rest = draw_groups_spec(groups, step.0, j + 1);
        (rest.0, step.1 + rest.1)
    }
}

impl Drawable for Object {
    /// Every group is drawn in order, one draw call each.
    open spec fn spec_draw(&self, p: Pipeline) -> (Pipeline, Seq<DrawCall>) {
        draw_groups_spec(self.groups@, p, 0)
    }

    fn draw(&self, pipe: &mut Pipeline) -> (r: Vec<DrawCall>) {
        let mut out: Vec<DrawCall> = Vec::new();
        let mut i: usize = 0;
        proof {
            assert(out@ + draw_groups_spec(self.groups@, *pipe, 0).1 =~= draw_groups_spec(
                self.groups@,
                *pipe,
                0,
            ).1);
        }
        while i < self.groups.len()
            invariant
                0 <= i <= self.groups@.len(),
                draw_groups_spec(self.groups@, *old(pipe), 0).0 == draw_groups_spec(
                    self.groups@,
                    *pipe,
                    i as int,
                ).0,
                draw_groups_spec(self.groups@, *old(pipe), 0).1 == out@ + draw_groups_spec(
                    self.groups@,
                    *pipe,
                    i as int,
                ).1,
            decreases self.groups.len() - i,
        {
            let ghost p_prev = *pipe;
            let call = pipe.draw(&self.groups[i]);
            let ghost pre = out@;
            out.push(call);
            proof {
                assert(*pipe == entity_draw(self.groups@[i as int], p_prev).0);
                assert(pre + (seq![call] + draw_groups_spec(self.groups@, *pipe, i + 1).1)
                    =~= out@ + draw_groups_spec(self.groups@, *pipe, i + 1).1);
            }
            i = i + 1;
        }
        proof {
            assert(out@ + Seq::<DrawCall>::empty() =~= out@);
        }
        out
    }
}

/// Draw isolation. A mesh piece's fill overwrites every field it owns with
/// its own values and touches nothing else, so drawing `b` right after `a`
/// leaves none of `a`'s data in the record: the result is exactly what `b`
/// alone would have written over the record `a` started from.
pub proof fn lemma_draw_isolation(a: ObjectData, b: ObjectData, r0: DrawDataRecord)
    ensures
        b.spec_fill(a.spec_fill(r0)) == b.spec_fill(r0),
        b.spec_fill(a.spec_fill(r0)).vbuf == b.vertices,
        b.spec_fill(a.spec_fill(r0)).pose == b.pose,
        b.spec_fill(a.spec_fill(r0)).texture == b.texture,
{
}

/// Field ownership is disjoint: a scene fill preserves everything a mesh
/// piece wrote, and a mesh fill preserves everything a scene wrote, so in
/// a frame that runs both fills before a draw every record field has been
/// written by its owner.
pub proof fn lemma_fill_disjoint(s: Scene, o: ObjectData, r0: DrawDataRecord)
    ensures
        o.spec_fill(s.spec_fill(r0)).mvp == s.mvp,
        o.spec_fill(s.spec_fill(r0)).camera == s.position,
        o.spec_fill(s.spec_fill(r0)).light == light_direction(),
        s.spec_fill(o.spec_fill(r0)).vbuf == o.vertices,
        s.spec_fill(o.spec_fill(r0)).pose == o.pose,
        s.spec_fill(o.spec_fill(r0)).texture == o.texture,
{
}

/// Clone independence. Two entities that share geometry but carry their
/// own motion parameters animate independently: each updated pose is a
/// function of the entity's own parameters and the elapsed time alone —
/// equal parameters give equal poses, and motions that separate the
/// positions give different poses.
pub proof fn lemma_clone_independence(
    p1: Vec3Fixed,
    v1: Vec3Fixed,
    o1: i64,
    p2: Vec3Fixed,
    v2: Vec3Fixed,
    o2: i64,
    axis: Vec3Fixed,
    t: u64,
    q1: ModelPose,
    q2: ModelPose,
)
    requires
        pose_after(p1, v1, axis, o1, t, q1),
        pose_after(p2, v2, axis, o2, t, q2),
    ensures
        q1.position.x == p1.x + v1.x * t,
        p1 == p2 && v1 == v2 && o1 == o2 ==> q1 == q2,
        p1.x + v1.x * t != p2.x + v2.x * t ==> q1 != q2,
{
}

} // verus!
