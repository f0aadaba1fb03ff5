//! The scene: the active models and the camera, and the per-frame command
//! encoding that binds the camera once before any model draws.
use vstd::prelude::*;

use crate::camera::ArcCamera;
use crate::model::{model_commands, DrawCommand, Model};

verus! {

/// The bind group set index the camera's uniforms are bound at.
pub const SCENE_BIND_GROUP_INDEX: u32 = 0;

/// The scene: its models and its camera.
pub struct Scene {
    pub models: Vec<Model>,
    pub camera: ArcCamera,
}

/// The concatenated command encodings of the first `upto` models.
pub open spec fn models_commands_upto(models: Seq<Model>, upto: int) -> Seq<DrawCommand>
    decreases upto,
{
    if upto <= 0 {
        Seq::empty()
    } else {
        models_commands_upto(models, upto - 1) + model_commands(models[upto - 1])
    }
}

/// A frame's scene encoding: the camera bound once, then every model's
/// commands in order.
pub open spec fn scene_commands(s: Scene) -> Seq<DrawCommand> {
    seq![DrawCommand::BindCamera] + models_commands_upto(s.models@, s.models@.len() as int)
}

impl Scene {
    /// Every model is ready to encode and the camera record is consistent.
    pub open spec fn wf(self) -> bool {
        &&& self.camera.wf()
        &&& forall|i: int| 0 <= i < self.models@.len() ==> (#[trigger] self.models@[i]).wf()
    }

    /// Creates an empty scene with a fresh camera for the viewport.
    pub fn new(width: u32, height: u32) -> (r: Scene)
        ensures
            r.wf(),
            r.models@.len() == 0,
            r.camera.width == width,
            r.camera.height == height,
    {
        Scene { models: Vec::new(), camera: ArcCamera::new(width, height) }
    }

    /// Appends a model to the scene.
    pub fn add_model(&mut self, model: Model)
        requires
            model.wf(),
        ensures
            final(self).models@ == old(self).models@.push(model),
            final(self).camera == old(self).camera,
    {
        self.models.push(model);
    }

    /// Replaces the active model: the previous models are discarded with
    /// all their GPU-side resources, and only the fully built new model is
    /// ever visible.
    pub fn set_model(&mut self, model: Model)
        requires
            model.wf(),
        ensures
            final(self).models@ =~= seq![model],
            final(self).camera == old(self).camera,
    {
        self.models.clear();
        self.models.push(model);
    }

    /// Discards every model, releasing all their GPU-side resources.
    pub fn clear_models(&mut self)
        ensures
            final(self).models@.len() == 0,
            final(self).camera == old(self).camera,
    {
        self.models.clear();
    }

    /// Adopts a new viewport size: only the camera's projection changes;
    /// its view matrix and the models stay as they were.
    pub fn resize_viewport(&mut self, width: u32, height: u32)
        ensures
            final(self).models == old(self).models,
            final(self).camera.eye == old(self).camera.eye,
            final(self).camera.target == old(self).camera.target,
            final(self).camera.up == old(self).camera.up,
            final(self).camera.width == width,
            final(self).camera.height == height,
            final(self).camera.wf(),
            old(self).camera.wf() ==> final(self).camera.uniforms.view_matrix@ == old(
                self,
            ).camera.uniforms.view_matrix@,
    {
        self.camera.resize_viewport(width, height);
    }

    /// Rotates the camera by an input delta (bit patterns of the two scroll
    /// components).
    pub fn rotate_camera(&mut self, dx: u32, dy: u32)
        ensures
            final(self).models == old(self).models,
            final(self).camera.eye@ == crate::camera::spec_rotated_eye(
                old(self).camera.eye@,
                old(self).camera.target@,
                old(self).camera.up@,
                dx,
                dy,
            ),
            final(self).camera.up@ == crate::camera::spec_rotated_up(
                old(self).camera.eye@,
                old(self).camera.up@,
                dx,
                dy,
            ),
            final(self).camera.target == old(self).camera.target,
            final(self).camera.width == old(self).camera.width,
            final(self).camera.height == old(self).camera.height,
            final(self).camera.wf(),
    {
        self.camera.rotate(dx, dy);
    }

    /// Encodes one frame: the camera's bind group once, before any model
    /// draw, then every model's commands in order.
    #[verifier::loop_isolation(false)]
    pub fn render(&self) -> (r: Vec<DrawCommand>)
        requires
            self.wf(),
        ensures
            r@ == scene_commands(*self),
            r@[0] == DrawCommand::BindCamera,
    {
        let mut cmds: Vec<DrawCommand> = Vec::new();
        cmds.push(DrawCommand::BindCamera);
        let mut i: usize = 0;
        while i < self.models.len()
            invariant
                i <= self.models@.len(),
                cmds@ == seq![DrawCommand::BindCamera] + models_commands_upto(
                    self.models@,
                    i as int,
                ),
            decreases self.models@.len() - i,
        {
            let mut more = self.models[i].render();
            cmds.append(&mut more);
            proof {
                assert(cmds@ =~= seq![DrawCommand::BindCamera] + models_commands_upto(
                    self.models@,
                    i as int + 1,
                ));
            }
            i += 1;
        }
        proof {
            assert(cmds@ =~= scene_commands(*self));
        }
        cmds
    }
}

proof fn lemma_models_commands_no_camera(models: Seq<Model>, upto: int, k: int)
    requires
        0 <= k < models_commands_upto(models, upto).len(),
    ensures
        models_commands_upto(models, upto)[k] != DrawCommand::BindCamera,
    decreases upto,
{
    if upto > 0 {
        let prefix = models_commands_upto(models, upto - 1);
        if k < prefix.len() {
            lemma_models_commands_no_camera(models, upto - 1, k);
        } else {
            crate::model::lemma_model_commands_no_camera(
                models[upto - 1],
                models[upto - 1].traversal.order@.len() as int,
                k - prefix.len(),
            );
        }
    }
}

/// The camera's bind group is bound exactly once per frame, before any
/// model draws: the encoding opens with the camera binding and never
/// repeats it.
pub proof fn lemma_camera_bound_once(s: Scene, k: int)
    requires
        0 <= k < scene_commands(s).len(),
    ensures
        scene_commands(s)[0] == DrawCommand::BindCamera,
        k >= 1 ==> scene_commands(s)[k] != DrawCommand::BindCamera,
{
    if k >= 1 {
        lemma_models_commands_no_camera(s.models@, s.models@.len() as int, k - 1);
    }
}

} // verus!
