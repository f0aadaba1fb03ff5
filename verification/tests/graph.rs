//! Entity graph construction: world transform composition, visit order,
//! uniform offsets, and rejection of shared or cyclic node references.
use nugget::entity::{Entity, ROOT_PARENT};
use nugget::error::LoadError;
use nugget::model::{load_resources, Model};
use nugget::resources::{Node, Resources, Scene};
use nugget::uniform::{align_up, UniformsArray};

fn mat_bits(m: glam::Mat4) -> [u32; 16] {
    let cols = m.to_cols_array();
    let mut out = [0u32; 16];
    for i in 0..16 {
        out[i] = cols[i].to_bits();
    }
    out
}

fn conversion() -> glam::Mat4 {
    glam::Mat4::from_diagonal(glam::Vec4::new(-1.0, 1.0, 1.0, 1.0))
}

fn empty_resources() -> Resources {
    Resources {
        scenes: vec![Scene { name: None, nodes: vec![] }],
        nodes: vec![],
        meshes: vec![],
        materials: vec![],
        textures: vec![],
        buffers: vec![],
        images: vec![],
        default_scene_index: 0,
    }
}

fn node(children: Vec<usize>, transform: glam::Mat4) -> Node {
    Node { name: None, mesh_index: None, children, transform: mat_bits(transform) }
}

fn chain_resources() -> (Resources, glam::Mat4, glam::Mat4, glam::Mat4) {
    // root entity -> node 0 -> node 1, and node 2 as a second scene root
    let t0 = glam::Mat4::from_translation(glam::Vec3::new(1.0, 2.0, 3.0));
    let t1 = glam::Mat4::from_scale(glam::Vec3::new(2.0, 2.0, 2.0));
    let t2 = glam::Mat4::from_translation(glam::Vec3::new(-4.0, 0.0, 0.5));
    let mut r = empty_resources();
    r.scenes[0].nodes = vec![0, 2];
    r.nodes = vec![node(vec![1], t0), node(vec![], t1), node(vec![], t2)];
    (r, t0, t1, t2)
}

fn build(r: Resources) -> Result<Model, LoadError> {
    load_resources(r, 256)
}

#[test]
fn graph_world_transforms_compose_down_the_chain() {
    let (r, t0, t1, t2) = chain_resources();
    let m = build(r).unwrap();
    let w0 = conversion() * t0;
    let w1 = w0 * t1;
    let w2 = conversion() * t2;
    assert_eq!(m.uniforms.records[0].transform, mat_bits(w0));
    assert_eq!(m.uniforms.records[1].transform, mat_bits(w1));
    assert_eq!(m.uniforms.records[2].transform, mat_bits(w2));
}

#[test]
fn graph_visit_order_is_depth_first_and_complete() {
    let (r, _, _, _) = chain_resources();
    let m = build(r).unwrap();
    assert_eq!(m.traversal.order, vec![0, 1, 2]);
    assert_eq!(m.traversal.visited, vec![true, true, true]);
    assert_eq!(m.traversal.parent[0], ROOT_PARENT);
    assert_eq!(m.traversal.parent[1], 0);
    assert_eq!(m.traversal.parent[2], ROOT_PARENT);
}

#[test]
fn graph_unreachable_node_keeps_a_zero_record() {
    let (mut r, _, _, _) = chain_resources();
    // drop node 2 from the scene roots; it stays unvisited
    r.scenes[0].nodes = vec![0];
    let m = build(r).unwrap();
    assert_eq!(m.traversal.visited, vec![true, true, false]);
    assert_eq!(m.uniforms.records[2].transform, [0u32; 16]);
}

#[test]
fn graph_shared_node_is_rejected() {
    let (mut r, _, _, _) = chain_resources();
    // node 1 is both a child of node 0 and a scene root
    r.scenes[0].nodes = vec![0, 1];
    let e = build(r).err().unwrap();
    assert_eq!(e, LoadError::DuplicateNodeReference);
}

#[test]
fn graph_cycle_is_rejected() {
    let mut r = empty_resources();
    r.scenes[0].nodes = vec![0];
    r.nodes = vec![node(vec![1], glam::Mat4::IDENTITY), node(vec![0], glam::Mat4::IDENTITY)];
    let e = build(r).err().unwrap();
    assert_eq!(e, LoadError::DuplicateNodeReference);
}

#[test]
fn graph_duplicate_among_unreachable_nodes_is_tolerated() {
    let (mut r, _, _, _) = chain_resources();
    // node 2 leaves the scene roots and points at itself; the walk never
    // reaches it, so the forest part still builds
    r.scenes[0].nodes = vec![0];
    r.nodes[2].children = vec![2];
    let m = build(r).unwrap();
    assert_eq!(m.traversal.visited, vec![true, true, false]);
}

#[test]
fn graph_empty_scene_builds_an_empty_model() {
    let m = build(empty_resources()).unwrap();
    assert_eq!(m.entities.len(), 0);
    assert_eq!(m.traversal.order.len(), 0);
    assert_eq!(m.render(), vec![]);
}

#[test]
fn graph_root_entity_carries_the_conversion_transform() {
    let (r, _, _, _) = chain_resources();
    let m = build(r).unwrap();
    assert_eq!(m.root_entity.transform, mat_bits(conversion()));
    assert_eq!(m.root_entity.children, vec![0, 2]);
    assert!(m.root_entity.mesh_index.is_none());
}

#[test]
fn graph_entities_mirror_the_nodes() {
    let (r, t0, _, _) = chain_resources();
    let m = build(r).unwrap();
    let e: &Entity = &m.entities[0];
    assert_eq!(e.children, vec![1]);
    assert_eq!(e.transform, mat_bits(t0));
}

#[test]
fn graph_entity_from_node_keeps_every_field() {
    let n = node(vec![4, 7], glam::Mat4::IDENTITY);
    let e = Entity::from(n);
    assert_eq!(e.children, vec![4, 7]);
    assert_eq!(e.transform, mat_bits(glam::Mat4::IDENTITY));
    assert!(e.name.is_none());
    assert!(e.mesh_index.is_none());
}

#[test]
fn uniform_offsets_are_aligned_and_distinct() {
    let ua = UniformsArray::new(4, 256);
    assert_eq!(ua.alignment, 256);
    let mut seen = Vec::new();
    for i in 0..4usize {
        let o = ua.offset(i);
        assert_eq!(o, (i as u64) * 256);
        assert_eq!(o % 256, 0);
        assert!(!seen.contains(&o));
        seen.push(o);
    }
}

#[test]
fn uniform_alignment_rounds_the_record_size_up() {
    assert_eq!(align_up(64, 256), 256);
    assert_eq!(align_up(64, 16), 64);
    assert_eq!(align_up(65, 16), 80);
    let ua = UniformsArray::new(2, 48);
    assert_eq!(ua.alignment, 96);
    assert_eq!(ua.offset(1), 96);
}
