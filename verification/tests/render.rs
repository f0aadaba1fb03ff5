//! Draw-command encoding: the end-to-end minimal asset, the default
//! material fallback, and rebuild determinism.
use nugget::error::LoadError;
use nugget::model::{load_resources, DrawCommand, Model};
use nugget::resources::{
    DecodedDocument, DecodedMesh, DecodedPrimitive, Node, Resources, Scene,
};
use nugget::scene;
use nugget::vertex::VertexAttribute;

fn identity_bits() -> [u32; 16] {
    let cols = glam::Mat4::IDENTITY.to_cols_array();
    let mut out = [0u32; 16];
    for i in 0..16 {
        out[i] = cols[i].to_bits();
    }
    out
}

/// The minimal asset: 1 scene, 1 root node with mesh 0, 1 mesh with one
/// primitive of 4 positions and 6 indices and no material.
fn minimal_document() -> DecodedDocument {
    let zero = 0f32.to_bits();
    let one = 1f32.to_bits();
    let p = DecodedPrimitive {
        positions: Some(vec![
            [zero, zero, zero],
            [one, zero, zero],
            [one, one, zero],
            [zero, one, zero],
        ]),
        tex_coords: None,
        normals: Some(vec![[zero, zero, one]; 4]),
        indices: Some(vec![0, 1, 2, 0, 2, 3]),
        material_index: None,
    };
    DecodedDocument {
        scenes: vec![Scene { name: None, nodes: vec![0] }],
        nodes: vec![Node {
            name: None,
            mesh_index: Some(0),
            children: vec![],
            transform: identity_bits(),
        }],
        meshes: vec![DecodedMesh { name: None, primitives: vec![p] }],
        materials: vec![],
        textures: vec![],
        buffers: vec![],
        images: vec![],
        default_scene_index: Some(0),
    }
}

fn minimal_model() -> Model {
    let resources = Resources::from_decoded(minimal_document()).unwrap();
    load_resources(resources, 256).unwrap()
}

#[test]
fn render_minimal_asset_draws_one_entity_with_six_indices() {
    let m = minimal_model();
    let cmds = m.render();
    assert_eq!(
        cmds,
        vec![
            DrawCommand::BindEntity { offset: 0 },
            DrawCommand::BindMaterial { material_index: None },
            DrawCommand::BindVertexBuffer {
                mesh_index: 0,
                primitive_index: 0,
                attribute: VertexAttribute::Position,
            },
            DrawCommand::BindVertexBuffer {
                mesh_index: 0,
                primitive_index: 0,
                attribute: VertexAttribute::TexCoord,
            },
            DrawCommand::BindVertexBuffer {
                mesh_index: 0,
                primitive_index: 0,
                attribute: VertexAttribute::Normal,
            },
            DrawCommand::BindIndexBuffer { mesh_index: 0, primitive_index: 0 },
            DrawCommand::DrawIndexed { index_count: 6 },
        ]
    );
    let draws = cmds
        .iter()
        .filter(|c| matches!(c, DrawCommand::DrawIndexed { .. }))
        .count();
    assert_eq!(draws, 1);
}

#[test]
fn render_scene_binds_the_camera_first_and_once() {
    let mut s = scene::Scene::new(640, 480);
    s.add_model(minimal_model());
    let cmds = s.render();
    assert_eq!(cmds[0], DrawCommand::BindCamera);
    let camera_binds = cmds
        .iter()
        .filter(|c| matches!(c, DrawCommand::BindCamera))
        .count();
    assert_eq!(camera_binds, 1);
    assert_eq!(cmds.len(), 8);
}

#[test]
fn render_meshless_entity_draws_nothing_but_its_subtree_draws() {
    let mut doc = minimal_document();
    // node 0: no mesh, one child; node 1 carries the mesh
    doc.nodes = vec![
        Node { name: None, mesh_index: None, children: vec![1], transform: identity_bits() },
        Node { name: None, mesh_index: Some(0), children: vec![], transform: identity_bits() },
    ];
    let resources = Resources::from_decoded(doc).unwrap();
    let m = load_resources(resources, 256).unwrap();
    let cmds = m.render();
    assert_eq!(cmds[0], DrawCommand::BindEntity { offset: 256 });
    let draws = cmds
        .iter()
        .filter(|c| matches!(c, DrawCommand::DrawIndexed { .. }))
        .count();
    assert_eq!(draws, 1);
}

#[test]
fn render_zero_materials_build_succeeds_and_falls_back() {
    // P-style round trip: no materials and no textures must not fail, and
    // every primitive draws with the default material bind group.
    let m = minimal_model();
    assert_eq!(m.materials.len(), 0);
    assert_eq!(m.textures.len(), 0);
    for c in m.render() {
        if let DrawCommand::BindMaterial { material_index } = c {
            assert!(material_index.is_none());
        }
    }
}

#[test]
fn render_rebuilding_twice_yields_identical_bind_group_data() {
    let m1 = minimal_model();
    let m2 = minimal_model();
    assert_eq!(m1.materials.len(), m2.materials.len());
    assert_eq!(m1.default_material.factors, m2.default_material.factors);
    assert_eq!(
        m1.default_material.bind_group_entries(),
        m2.default_material.bind_group_entries()
    );
    assert_eq!(
        m1.default_textures.base_color.pixels,
        m2.default_textures.base_color.pixels
    );
    assert_eq!(m1.default_textures.normal.pixels, m2.default_textures.normal.pixels);
    assert_eq!(m1.render(), m2.render());
}

#[test]
fn render_set_model_replaces_the_previous_model() {
    let mut s = scene::Scene::new(640, 480);
    s.set_model(minimal_model());
    s.set_model(minimal_model());
    assert_eq!(s.models.len(), 1);
    s.clear_models();
    assert_eq!(s.models.len(), 0);
}

#[test]
fn render_failed_load_keeps_nothing() {
    let mut doc = minimal_document();
    // a self-referential node: the load fails outright
    doc.nodes[0].children = vec![0];
    let resources = Resources::from_decoded(doc).unwrap();
    let e = load_resources(resources, 256).err().unwrap();
    assert_eq!(e, LoadError::DuplicateNodeReference);
}
