//! Importer validation: reference bounds, mandatory attributes, image
//! normalization and the texture-coordinate fallback.
use nugget::error::{ErrorKind, LoadError};
use nugget::resources::{
    DecodedDocument, DecodedImage, DecodedMesh, DecodedPrimitive, ImageFormat, Material, Node,
    Resources, Sampler, Scene, Texture, WrappingMode,
};

fn sampler() -> Sampler {
    Sampler {
        mag_filter: None,
        min_filter: None,
        wrap_s: WrappingMode::Repeat,
        wrap_t: WrappingMode::Repeat,
    }
}

fn empty_document() -> DecodedDocument {
    DecodedDocument {
        scenes: vec![],
        nodes: vec![],
        meshes: vec![],
        materials: vec![],
        textures: vec![],
        buffers: vec![],
        images: vec![],
        default_scene_index: None,
    }
}

fn single_scene_document() -> DecodedDocument {
    let mut doc = empty_document();
    doc.scenes.push(Scene { name: None, nodes: vec![] });
    doc.default_scene_index = Some(0);
    doc
}

fn full_primitive() -> DecodedPrimitive {
    DecodedPrimitive {
        positions: Some(vec![[0, 0, 0], [1, 2, 3]]),
        tex_coords: Some(vec![[7, 8], [9, 10]]),
        normals: Some(vec![[4, 5, 6], [4, 5, 6]]),
        indices: Some(vec![0, 1, 0]),
        material_index: None,
    }
}

#[test]
fn import_empty_document_lacks_default_scene() {
    let r = Resources::from_decoded(empty_document());
    assert_eq!(r.err(), Some(LoadError::DefaultSceneOutOfBounds));
}

#[test]
fn import_single_empty_scene_succeeds() {
    let r = Resources::from_decoded(single_scene_document()).unwrap();
    assert_eq!(r.default_scene_index, 0);
    assert_eq!(r.scenes.len(), 1);
    assert_eq!(r.nodes.len(), 0);
}

#[test]
fn import_absent_default_scene_index_falls_back_to_zero() {
    let mut doc = single_scene_document();
    doc.default_scene_index = None;
    let r = Resources::from_decoded(doc).unwrap();
    assert_eq!(r.default_scene_index, 0);
}

#[test]
fn import_default_scene_index_out_of_bounds() {
    let mut doc = single_scene_document();
    doc.default_scene_index = Some(1);
    let r = Resources::from_decoded(doc);
    assert_eq!(r.err(), Some(LoadError::DefaultSceneOutOfBounds));
}

#[test]
fn import_scene_node_out_of_bounds() {
    let mut doc = single_scene_document();
    doc.scenes[0].nodes.push(0);
    let r = Resources::from_decoded(doc);
    assert_eq!(r.err(), Some(LoadError::SceneNodeOutOfBounds));
}

#[test]
fn import_node_child_out_of_bounds() {
    let mut doc = single_scene_document();
    doc.nodes.push(Node {
        name: None,
        mesh_index: None,
        children: vec![5],
        transform: [0; 16],
    });
    let r = Resources::from_decoded(doc);
    assert_eq!(r.err(), Some(LoadError::NodeChildOutOfBounds));
}

#[test]
fn import_node_mesh_out_of_bounds() {
    let mut doc = single_scene_document();
    doc.nodes.push(Node {
        name: None,
        mesh_index: Some(0),
        children: vec![],
        transform: [0; 16],
    });
    let r = Resources::from_decoded(doc);
    assert_eq!(r.err(), Some(LoadError::NodeMeshOutOfBounds));
}

#[test]
fn import_material_texture_out_of_bounds() {
    let mut doc = single_scene_document();
    doc.materials.push(Material {
        name: None,
        base_color_factor: [0; 4],
        metallic_factor: 0,
        roughness_factor: 0,
        base_color_texture_index: Some(0),
        normal_texture_index: None,
        metallic_roughness_texture_index: None,
    });
    let r = Resources::from_decoded(doc);
    assert_eq!(r.err(), Some(LoadError::MaterialTextureOutOfBounds));
}

#[test]
fn import_texture_source_out_of_bounds() {
    let mut doc = single_scene_document();
    doc.textures.push(Texture::new(None, 0, sampler()));
    let r = Resources::from_decoded(doc);
    assert_eq!(r.err(), Some(LoadError::TextureSourceOutOfBounds));
}

#[test]
fn import_primitive_missing_positions() {
    let mut doc = single_scene_document();
    let mut p = full_primitive();
    p.positions = None;
    doc.meshes.push(DecodedMesh { name: None, primitives: vec![p] });
    let r = Resources::from_decoded(doc);
    assert_eq!(r.err(), Some(LoadError::MissingPositions));
}

#[test]
fn import_primitive_missing_normals() {
    let mut doc = single_scene_document();
    let mut p = full_primitive();
    p.normals = None;
    doc.meshes.push(DecodedMesh { name: None, primitives: vec![p] });
    let r = Resources::from_decoded(doc);
    assert_eq!(r.err(), Some(LoadError::MissingNormals));
}

#[test]
fn import_primitive_missing_indices() {
    let mut doc = single_scene_document();
    let mut p = full_primitive();
    p.indices = None;
    doc.meshes.push(DecodedMesh { name: None, primitives: vec![p] });
    let r = Resources::from_decoded(doc);
    assert_eq!(r.err(), Some(LoadError::MissingIndices));
}

#[test]
fn import_primitive_material_out_of_bounds() {
    let mut doc = single_scene_document();
    let mut p = full_primitive();
    p.material_index = Some(2);
    doc.meshes.push(DecodedMesh { name: None, primitives: vec![p] });
    let r = Resources::from_decoded(doc);
    assert_eq!(r.err(), Some(LoadError::PrimitiveMaterialOutOfBounds));
}

#[test]
fn import_missing_tex_coords_become_zero_pairs() {
    let mut doc = single_scene_document();
    let mut p = full_primitive();
    p.tex_coords = None;
    doc.meshes.push(DecodedMesh { name: None, primitives: vec![p] });
    let r = Resources::from_decoded(doc).unwrap();
    let prim = &r.meshes[0].primitives[0];
    assert_eq!(prim.positions.len(), 2);
    assert_eq!(prim.tex_coords.len(), prim.positions.len());
    for uv in &prim.tex_coords {
        assert_eq!(*uv, [0u32, 0u32]);
    }
}

#[test]
fn import_present_tex_coords_pass_through() {
    let mut doc = single_scene_document();
    doc.meshes.push(DecodedMesh { name: None, primitives: vec![full_primitive()] });
    let r = Resources::from_decoded(doc).unwrap();
    let prim = &r.meshes[0].primitives[0];
    assert_eq!(prim.tex_coords, vec![[7, 8], [9, 10]]);
    assert_eq!(prim.positions, vec![[0, 0, 0], [1, 2, 3]]);
    assert_eq!(prim.normals, vec![[4, 5, 6], [4, 5, 6]]);
    assert_eq!(prim.indices, vec![0, 1, 0]);
}

#[test]
fn import_rgba_image_passes_through() {
    let mut doc = single_scene_document();
    doc.images.push(DecodedImage {
        format: ImageFormat::Rgba8,
        width: 1,
        height: 2,
        pixels: vec![1, 2, 3, 4, 5, 6, 7, 8],
    });
    let r = Resources::from_decoded(doc).unwrap();
    assert_eq!(r.images[0].pixels, vec![1, 2, 3, 4, 5, 6, 7, 8]);
    assert_eq!(r.images[0].width, 1);
    assert_eq!(r.images[0].height, 2);
}

#[test]
fn import_rgb_image_gains_opaque_alpha() {
    let mut doc = single_scene_document();
    doc.images.push(DecodedImage {
        format: ImageFormat::Rgb8,
        width: 2,
        height: 1,
        pixels: vec![10, 20, 30, 40, 50, 60],
    });
    let r = Resources::from_decoded(doc).unwrap();
    assert_eq!(r.images[0].pixels, vec![10, 20, 30, 255, 40, 50, 60, 255]);
}

#[test]
fn import_unsupported_image_format_fails() {
    let mut doc = single_scene_document();
    doc.images.push(DecodedImage {
        format: ImageFormat::Other,
        width: 1,
        height: 1,
        pixels: vec![0, 0, 0, 0],
    });
    let r = Resources::from_decoded(doc);
    assert_eq!(r.err(), Some(LoadError::UnsupportedImageFormat));
}

#[test]
fn import_image_pixel_count_mismatch_fails() {
    let mut doc = single_scene_document();
    doc.images.push(DecodedImage {
        format: ImageFormat::Rgba8,
        width: 2,
        height: 2,
        pixels: vec![0, 0, 0],
    });
    let r = Resources::from_decoded(doc);
    assert_eq!(r.err(), Some(LoadError::ImagePixelCountMismatch));
}

#[test]
fn error_kinds_follow_the_taxonomy() {
    assert_eq!(LoadError::MissingPositions.kind(), ErrorKind::MissingAttribute);
    assert_eq!(LoadError::MissingNormals.kind(), ErrorKind::MissingAttribute);
    assert_eq!(LoadError::MissingIndices.kind(), ErrorKind::MissingAttribute);
    assert_eq!(LoadError::UnsupportedImageFormat.kind(), ErrorKind::Decode);
    assert_eq!(LoadError::ImagePixelCountMismatch.kind(), ErrorKind::Decode);
    assert_eq!(LoadError::NodeChildOutOfBounds.kind(), ErrorKind::Reference);
    assert_eq!(LoadError::PrimitiveMaterialOutOfBounds.kind(), ErrorKind::Reference);
    assert_eq!(LoadError::DuplicateNodeReference.kind(), ErrorKind::Graph);
}
