//! The renderable model: GPU-form meshes, materials and textures, a
//! flattened entity graph with precomputed world transforms in a uniform
//! array, and the depth-first draw-command encoding.
use vstd::prelude::*;

use crate::entity::{
    children_in_bounds, compute_world_transforms, is_forest, roots_in_bounds, spec_entity_of,
    traversal_complete, Entity, Traversal,
};
use crate::error::LoadError;
use crate::linalg::{F32_NEG_ONE, F32_ONE, Mat};
use crate::material::{default_material, spec_material_of, Material};
use crate::resources;
use crate::resources::Resources;
use crate::texture::{spec_resolve_sampler, DefaultTextures, Texture};
use crate::uniform::{spec_align_up, EntityBinding, UniformsArray, ENTITY_BINDING_SIZE};
use crate::vertex::VertexAttribute;

verus! {

/// The bind group set index the per-entity uniform array is bound at.
pub const MODEL_BIND_GROUP_INDEX: u32 = 1;

/// One step of a frame's command encoding. A backend executes these against
/// its pipeline in order.
#[derive(Clone, Copy, Debug, PartialEq, Eq)]
pub enum DrawCommand {
    /// Bind the camera's uniform bind group (scene set index).
    BindCamera,
    /// Bind the entity uniform array at this byte offset (model set index).
    BindEntity { offset: u64 },
    /// Bind a material's bind group (material set index); an absent index
    /// means the shared default material.
    BindMaterial { material_index: Option<usize> },
    /// Bind one vertex attribute buffer of a primitive at the attribute's
    /// fixed shader location.
    BindVertexBuffer { mesh_index: usize, primitive_index: usize, attribute: VertexAttribute },
    /// Bind a primitive's index buffer.
    BindIndexBuffer { mesh_index: usize, primitive_index: usize },
    /// Draw the full index range of the currently bound primitive.
    DrawIndexed { index_count: usize },
}

/// A fully built, renderable model.
pub struct Model {
    pub root_entity: Entity,
    pub entities: Vec<Entity>,
    pub meshes: Vec<resources::Mesh>,
    pub materials: Vec<Material>,
    pub default_material: Material,
    pub textures: Vec<Texture>,
    pub default_textures: DefaultTextures,
    pub uniforms: UniformsArray,
    pub traversal: Traversal,
}

impl Model {
    /// What rendering relies on: the visit order addresses real entities,
    /// every mesh and material reference is in bounds, and every entity's
    /// uniform offset fits the buffer range.
    pub open spec fn wf(self) -> bool {
        &&& self.traversal.visited@.len() == self.entities@.len()
        &&& self.traversal.worlds@.len() == self.entities@.len()
        &&& forall|k: int|
            0 <= k < self.traversal.order@.len() ==> ((#[trigger] self.traversal.order@[k]) as int)
                < self.entities@.len()
        &&& forall|i: int|
            0 <= i < self.entities@.len() ==> match (#[trigger] self.entities@[i]).mesh_index {
                Some(mi) => (mi as int) < self.meshes@.len(),
                None => true,
            }
        &&& forall|i: int, j: int|
            #![trigger self.meshes@[i].primitives@[j]]
            0 <= i < self.meshes@.len() && 0 <= j < self.meshes@[i].primitives@.len()
                ==> match self.meshes@[i].primitives@[j].material_index {
                Some(mi) => (mi as int) < self.materials@.len(),
                None => true,
            }
        &&& (self.entities@.len() as int) * (self.uniforms.alignment as int) <= u64::MAX
        &&& self.uniforms.records@.len() == self.entities@.len()
    }

    /// Builds a model: walks the entity forest under the synthetic root,
    /// composes world transforms depth-first, and stores each visited
    /// entity's transform in the uniform array at its aligned offset.
    /// Succeeds on every forest; an entity the walk reaches twice is
    /// rejected, and nothing of the model is kept.
    pub fn new(
        meshes: Vec<resources::Mesh>,
        materials: Vec<Material>,
        textures: Vec<Texture>,
        default_textures: DefaultTextures,
        entities: Vec<Entity>,
        root_entity: Entity,
        min_uniform_alignment: u32,
    ) -> (r: Result<Model, LoadError>)
        requires
            entities@.len() < usize::MAX,
            children_in_bounds(entities@),
            roots_in_bounds(root_entity.children@, entities@.len() as int),
            forall|i: int|
                0 <= i < entities@.len() ==> match (#[trigger] entities@[i]).mesh_index {
                    Some(mi) => (mi as int) < meshes@.len(),
                    None => true,
                },
            forall|i: int, j: int|
                #![trigger meshes@[i].primitives@[j]]
                0 <= i < meshes@.len() && 0 <= j < meshes@[i].primitives@.len()
                    ==> match meshes@[i].primitives@[j].material_index {
                    Some(mi) => (mi as int) < materials@.len(),
                    None => true,
                },
            1 <= min_uniform_alignment,
            (entities@.len() as int) * spec_align_up(
                ENTITY_BINDING_SIZE as int,
                min_uniform_alignment as int,
            ) <= u64::MAX,
        ensures
            is_forest(root_entity.children@, entities@) ==> r is Ok,
            r is Err ==> !is_forest(root_entity.children@, entities@) && r->Err_0
                == LoadError::DuplicateNodeReference,
            r is Ok ==> ({
                let m = r->Ok_0;
                &&& m.root_entity == root_entity
                &&& m.entities == entities
                &&& m.meshes == meshes
                &&& m.materials == materials
                &&& m.textures == textures
                &&& m.default_textures == default_textures
                &&& m.default_material == crate::material::spec_default_material()
                &&& m.wf()
                &&& m.uniforms.wf(min_uniform_alignment as u64)
                &&& traversal_complete(
                    entities@,
                    root_entity.children@,
                    root_entity.transform@,
                    m.traversal,
                )
                &&& forall|i: int|
                    0 <= i < entities@.len() && m.traversal.visited@[i]
                        ==> (#[trigger] m.uniforms.records@[i]).transform == m.traversal.worlds@[i]
                &&& forall|i: int, j: int|
                    0 <= i < entities@.len() && !m.traversal.visited@[i] && 0 <= j < 16
                        ==> (#[trigger] m.uniforms.records@[i].transform@[j]) == 0u32
            }),
    {
        let t = match compute_world_transforms(&entities, &root_entity) {
            Ok(t) => t,
            Err(e) => {
                return Err(e);
            },
        };
        let mut uniforms = UniformsArray::new(entities.len(), min_uniform_alignment);
        let ghost galign = uniforms.alignment;
        let mut i: usize = 0;
        while i < entities.len()
            invariant
                t.visited@.len() == entities@.len(),
                t.worlds@.len() == entities@.len(),
                uniforms.records@.len() == entities@.len(),
                uniforms.alignment == galign,
                i <= entities@.len(),
                forall|k: int|
                    0 <= k < i && t.visited@[k] ==> (#[trigger] uniforms.records@[k]).transform
                        == t.worlds@[k],
                forall|k: int, j: int|
                    (i <= k < entities@.len() || !t.visited@[k]) && 0 <= k < entities@.len() && 0
                        <= j < 16 ==> (#[trigger] uniforms.records@[k].transform@[j]) == 0u32,
            decreases entities@.len() - i,
        {
            if t.visited[i] {
                uniforms.update(EntityBinding { transform: t.worlds[i] }, i);
            }
            i += 1;
        }
        let model = Model {
            root_entity,
            entities,
            meshes,
            materials,
            default_material: default_material(),
            textures,
            default_textures,
            uniforms,
            traversal: t,
        };
        Ok(model)
    }
}

/// The six commands that draw one primitive: bind its material (or the
/// default), its three attribute buffers and its index buffer, then draw its
/// whole index range once.
pub open spec fn primitive_commands(mi: usize, pi: usize, prim: resources::Primitive) -> Seq<
    DrawCommand,
> {
    seq![
        DrawCommand::BindMaterial { material_index: prim.material_index },
        DrawCommand::BindVertexBuffer {
            mesh_index: mi,
            primitive_index: pi,
            attribute: VertexAttribute::Position,
        },
        DrawCommand::BindVertexBuffer {
            mesh_index: mi,
            primitive_index: pi,
            attribute: VertexAttribute::TexCoord,
        },
        DrawCommand::BindVertexBuffer {
            mesh_index: mi,
            primitive_index: pi,
            attribute: VertexAttribute::Normal,
        },
        DrawCommand::BindIndexBuffer { mesh_index: mi, primitive_index: pi },
        DrawCommand::DrawIndexed { index_count: prim.indices@.len() as usize },
    ]
}

/// The commands of a mesh's first `upto` primitives, in order.
pub open spec fn mesh_commands_upto(mi: usize, mesh: resources::Mesh, upto: int) -> Seq<
    DrawCommand,
>
    decreases upto,
{
    if upto <= 0 {
        Seq::empty()
    } else {
        mesh_commands_upto(mi, mesh, upto - 1) + primitive_commands(
            mi,
            (upto - 1) as usize,
            mesh.primitives@[upto - 1],
        )
    }
}

/// The commands one entity contributes: nothing without a mesh; otherwise
/// its uniform offset is bound, then each primitive of its mesh is drawn.
pub open spec fn entity_commands(m: Model, e: int) -> Seq<DrawCommand> {
    match m.entities@[e].mesh_index {
        None => Seq::empty(),
        Some(mi) => seq![
            DrawCommand::BindEntity { offset: (e * m.uniforms.alignment) as u64 },
        ] + mesh_commands_upto(mi, m.meshes@[mi as int], m.meshes@[mi as int].primitives@.len() as int),
    }
}

/// The commands of the first `upto` entities of the model's depth-first
/// visit order.
pub open spec fn model_commands_upto(m: Model, upto: int) -> Seq<DrawCommand>
    decreases upto,
{
    if upto <= 0 {
        Seq::empty()
    } else {
        model_commands_upto(m, upto - 1) + entity_commands(m, m.traversal.order@[upto - 1] as int)
    }
}

/// The model's full command encoding: its entities in depth-first visit
/// order.
pub open spec fn model_commands(m: Model) -> Seq<DrawCommand> {
    model_commands_upto(m, m.traversal.order@.len() as int)
}

impl Model {
    /// Encodes this model's draw commands: the same depth-first order the
    /// construction walk recorded, reading bind state instead of writing
    /// transforms. Entities without a mesh contribute nothing but their
    /// subtree stays in the walk.
    #[verifier::loop_isolation(false)]
    pub fn render(&self) -> (r: Vec<DrawCommand>)
        requires
            self.wf(),
        ensures
            r@ == model_commands(*self),
    {
        let mut cmds: Vec<DrawCommand> = Vec::new();
        let mut k: usize = 0;
        while k < self.traversal.order.len()
            invariant
                k <= self.traversal.order@.len(),
                cmds@ == model_commands_upto(*self, k as int),
            decreases self.traversal.order@.len() - k,
        {
            let e = self.traversal.order[k];
            match self.entities[e].mesh_index {
                None => {},
                Some(mi) => {
                    proof {
                        assert((e as int) * (self.uniforms.alignment as int) <= (
                        self.entities@.len() as int) * (self.uniforms.alignment as int))
                            by (nonlinear_arith)
                            requires
                                0 <= (e as int) <= self.entities@.len() as int,
                                self.uniforms.alignment >= 0,
                        ;
                    }
                    let offset = self.uniforms.offset(e);
                    cmds.push(DrawCommand::BindEntity { offset });
                    let mesh = &self.meshes[mi];
                    let ghost base = cmds@;
                    let mut j: usize = 0;
                    while j < mesh.primitives.len()
                        invariant
                            j <= mesh.primitives@.len(),
                            cmds@ == base + mesh_commands_upto(mi, *mesh, j as int),
                        decreases mesh.primitives@.len() - j,
                    {
                        let prim = &mesh.primitives[j];
                        cmds.push(
                            DrawCommand::BindMaterial { material_index: prim.material_index },
                        );
                        cmds.push(
                            DrawCommand::BindVertexBuffer {
                                mesh_index: mi,
                                primitive_index: j,
                                attribute: VertexAttribute::Position,
                            },
                        );
                        cmds.push(
                            DrawCommand::BindVertexBuffer {
                                mesh_index: mi,
                                primitive_index: j,
                                attribute: VertexAttribute::TexCoord,
                            },
                        );
                        cmds.push(
                            DrawCommand::BindVertexBuffer {
                                mesh_index: mi,
                                primitive_index: j,
                                attribute: VertexAttribute::Normal,
                            },
                        );
                        cmds.push(
                            DrawCommand::BindIndexBuffer { mesh_index: mi, primitive_index: j },
                        );
                        cmds.push(DrawCommand::DrawIndexed { index_count: prim.indices.len() });
                        proof {
                            assert(cmds@ =~= base + mesh_commands_upto(mi, *mesh, j as int + 1));
                        }
                        j += 1;
                    }
                    proof {
                        assert(cmds@ =~= model_commands_upto(*self, k as int) + entity_commands(
                            *self,
                            e as int,
                        ));
                    }
                },
            }
            proof {
                assert(cmds@ =~= model_commands_upto(*self, k as int + 1));
            }
            k += 1;
        }
        cmds
    }
}

/// Per-element relation between a decoded texture, the image array and the
/// GPU texture built for it.
pub open spec fn texture_built(
    rt: resources::Texture,
    images: Seq<resources::RgbaImage>,
    t: Texture,
) -> bool {
    &&& t.name == rt.name
    &&& t.width == images[rt.source_index as int].width
    &&& t.height == images[rt.source_index as int].height
    &&& t.pixels@ == images[rt.source_index as int].pixels@
    &&& t.sampler == spec_resolve_sampler(rt.sampler)
}

/// The entity each decoded node projects to, index for index.
pub open spec fn entities_of_nodes(nodes: Seq<resources::Node>) -> Seq<Entity> {
    nodes.map_values(|n: resources::Node| spec_entity_of(n))
}

/// The synthetic root's local transform: the fixed coordinate-system
/// correction (an x-axis flip) that reconciles the asset's handedness with
/// the backend's.
pub open spec fn spec_conversion_transform() -> Seq<u32> {
    seq![
        F32_NEG_ONE, 0u32, 0u32, 0u32, 0u32, F32_ONE, 0u32, 0u32, 0u32, 0u32, F32_ONE, 0u32, 0u32,
        0u32, 0u32, F32_ONE,
    ]
}

/// Builds the synthetic root's local transform, the diagonal matrix
/// (-1, 1, 1, 1) in column-major order.
pub fn conversion_transform() -> (r: Mat)
    ensures
        r@ == spec_conversion_transform(),
{
    let m: Mat = [
        F32_NEG_ONE, 0u32, 0u32, 0u32, 0u32, F32_ONE, 0u32, 0u32, 0u32, 0u32, F32_ONE, 0u32, 0u32,
        0u32, 0u32, F32_ONE,
    ];
    proof {
        assert(m@ =~= spec_conversion_transform());
    }
    m
}

fn copy_indices(src: &Vec<usize>) -> (r: Vec<usize>)
    ensures
        r@ == src@,
{
    let mut out: Vec<usize> = Vec::new();
    let mut i: usize = 0;
    while i < src.len()
        invariant
            i <= src@.len(),
            out@ == src@.take(i as int),
        decreases src@.len() - i,
    {
        out.push(src[i]);
        proof {
            assert(out@ =~= src@.take(i + 1 as int));
        }
        i += 1;
    }
    proof {
        assert(out@ =~= src@);
    }
    out
}

/// Turns validated resources into a renderable model: one GPU texture per
/// decoded texture, one GPU material per decoded material, the nodes
/// flattened into entities under a synthetic root whose children are the
/// default scene's root nodes and whose transform is the fixed
/// coordinate-system correction, and every reachable entity's world
/// transform composed into the uniform array.
///
/// Succeeds whenever the node graph is a forest; a node the walk reaches
/// twice fails the load, and no part of the model is kept.
#[verifier::loop_isolation(false)]
pub fn load_resources(resources: Resources, min_uniform_alignment: u32) -> (r: Result<
    Model,
    LoadError,
>)
    requires
        resources.wf(),
        resources.nodes@.len() < usize::MAX,
        1 <= min_uniform_alignment,
        (resources.nodes@.len() as int) * spec_align_up(
            ENTITY_BINDING_SIZE as int,
            min_uniform_alignment as int,
        ) <= u64::MAX,
    ensures
        ({
            let ents = entities_of_nodes(resources.nodes@);
            let roots = resources.scenes@[resources.default_scene_index as int].nodes@;
            &&& (is_forest(roots, ents) ==> r is Ok)
            &&& (r is Err ==> !is_forest(roots, ents) && r->Err_0
                == LoadError::DuplicateNodeReference)
            &&& (r is Ok ==> ({
                let m = r->Ok_0;
                &&& m.entities@ == ents
                &&& m.root_entity.children@ == roots
                &&& m.root_entity.transform@ == spec_conversion_transform()
                &&& m.root_entity.mesh_index is None
                &&& m.meshes == resources.meshes
                &&& m.materials@.len() == resources.materials@.len()
                &&& (forall|i: int|
                    0 <= i < resources.materials@.len() ==> (#[trigger] m.materials@[i])
                        == spec_material_of(resources.materials@[i]))
                &&& m.default_material == crate::material::spec_default_material()
                &&& m.textures@.len() == resources.textures@.len()
                &&& (forall|i: int|
                    0 <= i < resources.textures@.len() ==> texture_built(
                        resources.textures@[i],
                        resources.images@,
                        #[trigger] m.textures@[i],
                    ))
                &&& m.default_textures.wf()
                &&& m.wf()
                &&& m.uniforms.wf(min_uniform_alignment as u64)
                &&& traversal_complete(ents, roots, spec_conversion_transform(), m.traversal)
                &&& (forall|i: int|
                    0 <= i < ents.len() && m.traversal.visited@[i]
                        ==> (#[trigger] m.uniforms.records@[i]).transform
                        == m.traversal.worlds@[i])
            }))
        }),
{
    let Resources {
        scenes,
        nodes,
        meshes,
        materials,
        textures,
        buffers: _buffers,
        images,
        default_scene_index,
    } = resources;
    // GPU textures, one per decoded texture.
    let ghost orig_textures = textures@;
    let mut src_t = textures;
    let mut rev_t: Vec<resources::Texture> = Vec::new();
    proof {
        assert(src_t@ =~= orig_textures.take(src_t@.len() as int));
    }
    while src_t.len() > 0
        invariant
            rev_t@.len() + src_t@.len() == orig_textures.len(),
            src_t@ == orig_textures.take(src_t@.len() as int),
            forall|k: int|
                #![trigger rev_t@[k]]
                0 <= k < rev_t@.len() ==> rev_t@[k] == orig_textures[orig_textures.len() - 1 - k],
        decreases src_t@.len(),
    {
        let e = src_t.pop().unwrap();
        proof {
            assert(orig_textures.take(src_t@.len() as int + 1).drop_last() =~= orig_textures.take(
                src_t@.len() as int,
            ));
        }
        rev_t.push(e);
    }
    let mut gpu_textures: Vec<Texture> = Vec::new();
    while rev_t.len() > 0
        invariant
            gpu_textures@.len() + rev_t@.len() == orig_textures.len(),
            forall|k: int|
                #![trigger rev_t@[k]]
                0 <= k < rev_t@.len() ==> rev_t@[k] == orig_textures[orig_textures.len() - 1 - k],
            forall|k: int|
                0 <= k < gpu_textures@.len() ==> texture_built(
                    orig_textures[k],
                    images@,
                    #[trigger] gpu_textures@[k],
                ),
        decreases rev_t@.len(),
    {
        let rt = rev_t.pop().unwrap();
        proof {
            assert(rt == orig_textures[gpu_textures@.len() as int]);
        }
        let resources::Texture { name, source_index, sampler } = rt;
        let t = Texture::new(name, &images[source_index], &sampler);
        gpu_textures.push(t);
    }
    // GPU materials, one per decoded material.
    let ghost orig_materials = materials@;
    let mut src_m = materials;
    let mut rev_m: Vec<resources::Material> = Vec::new();
    proof {
        assert(src_m@ =~= orig_materials.take(src_m@.len() as int));
    }
    while src_m.len() > 0
        invariant
            rev_m@.len() + src_m@.len() == orig_materials.len(),
            src_m@ == orig_materials.take(src_m@.len() as int),
            forall|k: int|
                #![trigger rev_m@[k]]
                0 <= k < rev_m@.len() ==> rev_m@[k] == orig_materials[orig_materials.len() - 1
                    - k],
        decreases src_m@.len(),
    {
        let e = src_m.pop().unwrap();
        proof {
            assert(orig_materials.take(src_m@.len() as int + 1).drop_last()
                =~= orig_materials.take(src_m@.len() as int));
        }
        rev_m.push(e);
    }
    let mut gpu_materials: Vec<Material> = Vec::new();
    while rev_m.len() > 0
        invariant
            gpu_materials@.len() + rev_m@.len() == orig_materials.len(),
            forall|k: int|
                #![trigger rev_m@[k]]
                0 <= k < rev_m@.len() ==> rev_m@[k] == orig_materials[orig_materials.len() - 1
                    - k],
            forall|k: int|
                0 <= k < gpu_materials@.len() ==> (#[trigger] gpu_materials@[k])
                    == spec_material_of(orig_materials[k]),
        decreases rev_m@.len(),
    {
        let rm = rev_m.pop().unwrap();
        proof {
            assert(rm == orig_materials[gpu_materials@.len() as int]);
        }
        gpu_materials.push(Material::new(rm));
    }
    // Entities, one per decoded node.
    let ghost orig_nodes = nodes@;
    let mut src_n = nodes;
    let mut rev_n: Vec<resources::Node> = Vec::new();
    proof {
        assert(src_n@ =~= orig_nodes.take(src_n@.len() as int));
    }
    while src_n.len() > 0
        invariant
            rev_n@.len() + src_n@.len() == orig_nodes.len(),
            src_n@ == orig_nodes.take(src_n@.len() as int),
            forall|k: int|
                #![trigger rev_n@[k]]
                0 <= k < rev_n@.len() ==> rev_n@[k] == orig_nodes[orig_nodes.len() - 1 - k],
        decreases src_n@.len(),
    {
        let e = src_n.pop().unwrap();
        proof {
            assert(orig_nodes.take(src_n@.len() as int + 1).drop_last() =~= orig_nodes.take(
                src_n@.len() as int,
            ));
        }
        rev_n.push(e);
    }
    let mut entities: Vec<Entity> = Vec::new();
    while rev_n.len() > 0
        invariant
            entities@.len() + rev_n@.len() == orig_nodes.len(),
            forall|k: int|
                #![trigger rev_n@[k]]
                0 <= k < rev_n@.len() ==> rev_n@[k] == orig_nodes[orig_nodes.len() - 1 - k],
            forall|k: int|
                0 <= k < entities@.len() ==> (#[trigger] entities@[k]) == spec_entity_of(
                    orig_nodes[k],
                ),
        decreases rev_n@.len(),
    {
        let node = rev_n.pop().unwrap();
        proof {
            assert(node == orig_nodes[entities@.len() as int]);
        }
        entities.push(Entity::from(node));
    }
    proof {
        assert(entities@ =~= entities_of_nodes(orig_nodes));
    }
    // The synthetic root: the default scene's roots under the fixed
    // coordinate-system correction.
    let root_children = copy_indices(&scenes[default_scene_index].nodes);
    let root_entity = Entity {
        name: None,
        mesh_index: None,
        children: root_children,
        transform: conversion_transform(),
    };
    proof {
        assert(children_in_bounds(entities@));
        assert(roots_in_bounds(root_entity.children@, entities@.len() as int));
        assert forall|i: int|
            0 <= i < entities@.len() implies match (#[trigger] entities@[i]).mesh_index {
            Some(mi) => (mi as int) < meshes@.len(),
            None => true,
        } by {
            assert(entities@[i] == spec_entity_of(orig_nodes[i]));
        };
    }
    Model::new(
        meshes,
        gpu_materials,
        gpu_textures,
        DefaultTextures::new(),
        entities,
        root_entity,
        min_uniform_alignment,
    )
}

/// Rebuilding from the same resources yields bind groups with identical
/// data content: two material arrays built from one decoded material array
/// are equal, entry for entry, and so are their bind group layouts.
pub proof fn lemma_rebuild_materials_identical(
    src: Seq<resources::Material>,
    a: Seq<Material>,
    b: Seq<Material>,
)
    requires
        a.len() == src.len(),
        b.len() == src.len(),
        forall|i: int| 0 <= i < src.len() ==> (#[trigger] a[i]) == spec_material_of(src[i]),
        forall|i: int| 0 <= i < src.len() ==> (#[trigger] b[i]) == spec_material_of(src[i]),
    ensures
        a =~= b,
        forall|i: int|
            0 <= i < src.len() ==> (#[trigger] a[i]).spec_entries() == b[i].spec_entries(),
{
}

/// Rebuilding from the same resources yields identical uploaded textures:
/// two texture arrays built from one decoded texture array over one image
/// array agree in every field of every texture.
pub proof fn lemma_rebuild_textures_identical(
    images: Seq<resources::RgbaImage>,
    src: Seq<resources::Texture>,
    a: Seq<Texture>,
    b: Seq<Texture>,
)
    requires
        a.len() == src.len(),
        b.len() == src.len(),
        forall|i: int|
            0 <= i < src.len() ==> texture_built(src[i], images, #[trigger] a[i]),
        forall|i: int|
            0 <= i < src.len() ==> texture_built(src[i], images, #[trigger] b[i]),
    ensures
        forall|i: int|
            #![trigger a[i], b[i]]
            0 <= i < src.len() ==> {
                &&& a[i].name == b[i].name
                &&& a[i].width == b[i].width
                &&& a[i].height == b[i].height
                &&& a[i].pixels@ == b[i].pixels@
                &&& a[i].sampler == b[i].sampler
            },
{
}

/// A model with no materials binds the shared default material for every
/// primitive it draws: every material-binding command in its encoding names
/// no material index.
pub proof fn lemma_no_materials_draws_use_default(m: Model, k: int)
    requires
        m.wf(),
        m.materials@.len() == 0,
        0 <= k < model_commands(m).len(),
    ensures
        model_commands(m)[k] matches DrawCommand::BindMaterial { material_index }
            ==> material_index is None,
{
    lemma_model_commands_materials(m, m.traversal.order@.len() as int, k);
}

proof fn lemma_mesh_commands_materials(
    m: Model,
    mi: usize,
    mesh: resources::Mesh,
    upto: int,
    k: int,
)
    requires
        (mi as int) < m.meshes@.len(),
        mesh == m.meshes@[mi as int],
        m.materials@.len() == 0,
        m.wf(),
        upto <= mesh.primitives@.len(),
        0 <= k < mesh_commands_upto(mi, mesh, upto).len(),
    ensures
        mesh_commands_upto(mi, mesh, upto)[k] matches DrawCommand::BindMaterial { material_index }
            ==> material_index is None,
    decreases upto,
{
    if upto > 0 {
        let prefix = mesh_commands_upto(mi, mesh, upto - 1);
        if k < prefix.len() {
            lemma_mesh_commands_materials(m, mi, mesh, upto - 1, k);
        } else {
            assert(match mesh.primitives@[upto - 1].material_index {
                Some(x) => (x as int) < 0,
                None => true,
            });
        }
    }
}

proof fn lemma_mesh_commands_no_camera(mi: usize, mesh: resources::Mesh, upto: int, k: int)
    requires
        0 <= k < mesh_commands_upto(mi, mesh, upto).len(),
    ensures
        mesh_commands_upto(mi, mesh, upto)[k] != DrawCommand::BindCamera,
    decreases upto,
{
    if upto > 0 {
        let prefix = mesh_commands_upto(mi, mesh, upto - 1);
        if k < prefix.len() {
            lemma_mesh_commands_no_camera(mi, mesh, upto - 1, k);
        }
    }
}

/// A model's command encoding never touches the camera's bind group slot:
/// only the scene binds the camera, once per frame, before any model draws.
pub proof fn lemma_model_commands_no_camera(m: Model, upto: int, k: int)
    requires
        upto <= m.traversal.order@.len(),
        0 <= k < model_commands_upto(m, upto).len(),
    ensures
        model_commands_upto(m, upto)[k] != DrawCommand::BindCamera,
    decreases upto,
{
    if upto > 0 {
        let prefix = model_commands_upto(m, upto - 1);
        if k < prefix.len() {
            lemma_model_commands_no_camera(m, upto - 1, k);
        } else {
            let e = m.traversal.order@[upto - 1] as int;
            match m.entities@[e].mesh_index {
                None => {},
                Some(mi) => {
                    let mesh = m.meshes@[mi as int];
                    if k - prefix.len() >= 1 {
                        lemma_mesh_commands_no_camera(
                            mi,
                            mesh,
                            mesh.primitives@.len() as int,
                            k - prefix.len() - 1,
                        );
                    }
                },
            }
        }
    }
}

proof fn lemma_model_commands_materials(m: Model, upto: int, k: int)
    requires
        m.wf(),
        m.materials@.len() == 0,
        upto <= m.traversal.order@.len(),
        0 <= k < model_commands_upto(m, upto).len(),
    ensures
        model_commands_upto(m, upto)[k] matches DrawCommand::BindMaterial { material_index }
            ==> material_index is None,
    decreases upto,
{
    if upto > 0 {
        let prefix = model_commands_upto(m, upto - 1);
        if k < prefix.len() {
            lemma_model_commands_materials(m, upto - 1, k);
        } else {
            let e = m.traversal.order@[upto - 1] as int;
            match m.entities@[e].mesh_index {
                None => {},
                Some(mi) => {
                    let mesh = m.meshes@[mi as int];
                    let cmds = entity_commands(m, e);
                    if k - prefix.len() >= 1 {
                        lemma_mesh_commands_materials(
                            m,
                            mi,
                            mesh,
                            mesh.primitives@.len() as int,
                            k - prefix.len() - 1,
                        );
                    }
                },
            }
        }
    }
}

} // verus!
