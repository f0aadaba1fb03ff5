//! The decoded resource model.
//!
//! An external decoder parses the asset container and hands over plain
//! values: scenes, nodes, meshes, materials, textures, raw buffers and
//! images. This module validates them into a `Resources` value whose weak
//! references are all in bounds, whose images are normalized to interleaved
//! RGBA8, and whose primitives carry every mandatory attribute, with zeroed
//! texture coordinates substituted where the asset has none.
use vstd::prelude::*;

use crate::error::LoadError;
use crate::linalg::Mat;

verus! {

/// Magnification filter of a decoded sampler.
#[derive(Clone, Copy, Debug, PartialEq, Eq, Structural)]
pub enum MagFilter {
    Nearest,
    Linear,
}

/// Minification filter of a decoded sampler.
#[derive(Clone, Copy, Debug, PartialEq, Eq, Structural)]
pub enum MinFilter {
    Nearest,
    Linear,
    NearestMipmapNearest,
    LinearMipmapNearest,
    NearestMipmapLinear,
    LinearMipmapLinear,
}

/// Texture coordinate wrapping mode of a decoded sampler.
#[derive(Clone, Copy, Debug, PartialEq, Eq, Structural)]
pub enum WrappingMode {
    ClampToEdge,
    MirroredRepeat,
    Repeat,
}

/// A decoded sampler: optional filters and the wrap modes.
#[derive(Clone, Copy, Debug, PartialEq, Eq, Structural)]
pub struct Sampler {
    pub mag_filter: Option<MagFilter>,
    pub min_filter: Option<MinFilter>,
    pub wrap_s: WrappingMode,
    pub wrap_t: WrappingMode,
}

/// A decoded texture: a weak reference into the image array plus sampler
/// parameters.
#[derive(Debug)]
pub struct Texture {
    pub name: Option<String>,
    pub source_index: usize,
    pub sampler: Sampler,
}

impl Texture {
    /// Bundles a decoded texture's fields.
    pub fn new(name: Option<String>, source_index: usize, sampler: Sampler) -> (r: Texture)
        ensures
            r.name == name,
            r.source_index == source_index,
            r.sampler == sampler,
    {
        Texture { name, source_index, sampler }
    }
}

/// A decoded material: scalar factors as single-precision bit patterns and
/// optional weak references into the texture array.
#[derive(Debug)]
pub struct Material {
    pub name: Option<String>,
    pub base_color_factor: [u32; 4],
    pub metallic_factor: u32,
    pub roughness_factor: u32,
    pub base_color_texture_index: Option<usize>,
    pub normal_texture_index: Option<usize>,
    pub metallic_roughness_texture_index: Option<usize>,
}

/// A decoded node: an optional mesh reference, child node indices and the
/// local transform relative to the parent.
#[derive(Debug)]
pub struct Node {
    pub name: Option<String>,
    pub mesh_index: Option<usize>,
    pub children: Vec<usize>,
    pub transform: Mat,
}

/// A decoded scene: the indices of its root nodes.
#[derive(Debug)]
pub struct Scene {
    pub name: Option<String>,
    pub nodes: Vec<usize>,
}

/// A validated primitive: parallel vertex attribute arrays (positions,
/// texture coordinates, normals as single-precision bit patterns), the
/// index array, and an optional weak material reference.
#[derive(Debug)]
pub struct Primitive {
    pub positions: Vec<[u32; 3]>,
    pub tex_coords: Vec<[u32; 2]>,
    pub normals: Vec<[u32; 3]>,
    pub indices: Vec<u32>,
    pub material_index: Option<usize>,
}

/// A validated mesh: an ordered list of primitives.
#[derive(Debug)]
pub struct Mesh {
    pub name: Option<String>,
    pub primitives: Vec<Primitive>,
}

/// An image normalized to width x height interleaved RGBA8 bytes.
#[derive(Debug)]
pub struct RgbaImage {
    pub width: u32,
    pub height: u32,
    pub pixels: Vec<u8>,
}

impl RgbaImage {
    /// The pixel bytes cover exactly width x height RGBA quadruples.
    pub open spec fn wf(self) -> bool {
        self.pixels@.len() == 4 * (self.width as int) * (self.height as int)
    }
}

/// The pixel encoding of an image as the decoder delivered it.
#[derive(Clone, Copy, Debug, PartialEq, Eq, Structural)]
pub enum ImageFormat {
    /// Interleaved 8-bit RGBA.
    Rgba8,
    /// Interleaved 8-bit RGB without alpha.
    Rgb8,
    /// Any encoding the importer does not accept.
    Other,
}

/// An image as the decoder delivered it: encoding, dimensions and raw bytes.
#[derive(Debug)]
pub struct DecodedImage {
    pub format: ImageFormat,
    pub width: u32,
    pub height: u32,
    pub pixels: Vec<u8>,
}

/// A primitive as the decoder delivered it: each attribute array present or
/// absent.
#[derive(Debug)]
pub struct DecodedPrimitive {
    pub positions: Option<Vec<[u32; 3]>>,
    pub tex_coords: Option<Vec<[u32; 2]>>,
    pub normals: Option<Vec<[u32; 3]>>,
    pub indices: Option<Vec<u32>>,
    pub material_index: Option<usize>,
}

/// A mesh as the decoder delivered it.
#[derive(Debug)]
pub struct DecodedMesh {
    pub name: Option<String>,
    pub primitives: Vec<DecodedPrimitive>,
}

/// Everything the external decoder yields for one asset, as plain values.
#[derive(Debug)]
pub struct DecodedDocument {
    pub scenes: Vec<Scene>,
    pub nodes: Vec<Node>,
    pub meshes: Vec<DecodedMesh>,
    pub materials: Vec<Material>,
    pub textures: Vec<Texture>,
    pub buffers: Vec<Vec<u8>>,
    pub images: Vec<DecodedImage>,
    pub default_scene_index: Option<usize>,
}

/// A decoded image's byte count matches its dimensions and its encoding is
/// one the importer accepts.
pub open spec fn image_valid(img: DecodedImage) -> bool {
    match img.format {
        ImageFormat::Rgba8 => img.pixels@.len() == 4 * (img.width as int) * (img.height as int),
        ImageFormat::Rgb8 => img.pixels@.len() == 3 * (img.width as int) * (img.height as int),
        ImageFormat::Other => false,
    }
}

/// How a normalized image relates to its decoded form: RGBA bytes pass
/// through unchanged; RGB pixels gain an opaque alpha byte.
pub open spec fn image_normalized(img: DecodedImage, r: RgbaImage) -> bool {
    &&& r.width == img.width
    &&& r.height == img.height
    &&& match img.format {
        ImageFormat::Rgba8 => r.pixels@ == img.pixels@,
        ImageFormat::Rgb8 => {
            &&& r.pixels@.len() == 4 * (img.width as int) * (img.height as int)
            &&& forall|k: int|
                #![trigger r.pixels@[4 * k]]
                0 <= k < (img.width as int) * (img.height as int) ==> {
                    &&& r.pixels@[4 * k] == img.pixels@[3 * k]
                    &&& r.pixels@[4 * k + 1] == img.pixels@[3 * k + 1]
                    &&& r.pixels@[4 * k + 2] == img.pixels@[3 * k + 2]
                    &&& r.pixels@[4 * k + 3] == 255u8
                }
        },
        ImageFormat::Other => false,
    }
}

/// Normalizes one decoded image to interleaved RGBA8: RGBA data is checked
/// and passed through, RGB data gains an opaque alpha channel, and any other
/// encoding is a fatal decode error.
pub fn normalize_image(img: DecodedImage) -> (r: Result<RgbaImage, LoadError>)
    ensures
        r is Ok <==> image_valid(img),
        r is Ok ==> image_normalized(img, r->Ok_0) && r->Ok_0.wf(),
        r is Err ==> r->Err_0 == (if img.format == ImageFormat::Other {
            LoadError::UnsupportedImageFormat
        } else {
            LoadError::ImagePixelCountMismatch
        }),
{
    proof {
        assert((img.width as int) * (img.height as int) < 0x1_0000_0000_0000_0000int)
            by (nonlinear_arith)
            requires
                img.width <= 0xFFFF_FFFFu32,
                img.height <= 0xFFFF_FFFFu32,
        ;
    }
    let area = (img.width as u64) * (img.height as u64);
    let ghost wh = (img.width as int) * (img.height as int);
    match img.format {
        ImageFormat::Rgba8 => {
            if img.pixels.len() % 4 == 0 && (img.pixels.len() / 4) as u64 == area {
                proof {
                    vstd::arithmetic::div_mod::lemma_fundamental_div_mod(
                        img.pixels@.len() as int,
                        4,
                    );
                    assert(4 * (img.width as int) * (img.height as int) == 4 * wh)
                        by (nonlinear_arith)
                        requires
                            wh == (img.width as int) * (img.height as int),
                    ;
                }
                Ok(RgbaImage { width: img.width, height: img.height, pixels: img.pixels })
            } else {
                proof {
                    vstd::arithmetic::div_mod::lemma_fundamental_div_mod(
                        img.pixels@.len() as int,
                        4,
                    );
                    assert(img.pixels@.len() as int != 4 * wh);
                    assert(4 * (img.width as int) * (img.height as int) == 4 * wh)
                        by (nonlinear_arith)
                        requires
                            wh == (img.width as int) * (img.height as int),
                    ;
                }
                Err(LoadError::ImagePixelCountMismatch)
            }
        },
        ImageFormat::Rgb8 => {
            if !(img.pixels.len() % 3 == 0 && (img.pixels.len() / 3) as u64 == area) {
                proof {
                    vstd::arithmetic::div_mod::lemma_fundamental_div_mod(
                        img.pixels@.len() as int,
                        3,
                    );
                    assert(img.pixels@.len() as int != 3 * wh);
                    assert(3 * (img.width as int) * (img.height as int) == 3 * wh)
                        by (nonlinear_arith)
                        requires
                            wh == (img.width as int) * (img.height as int),
                    ;
                }
                return Err(LoadError::ImagePixelCountMismatch);
            }
            proof {
                vstd::arithmetic::div_mod::lemma_fundamental_div_mod(img.pixels@.len() as int, 3);
                assert(3 * (img.width as int) * (img.height as int) == 3 * wh)
                    by (nonlinear_arith)
                    requires
                        wh == (img.width as int) * (img.height as int),
                ;
            }
            let len = img.pixels.len();
            let mut out: Vec<u8> = Vec::new();
            let mut i: usize = 0;
            while i < len
                invariant
                    len == img.pixels@.len(),
                    len % 3 == 0,
                    i % 3 == 0,
                    i <= len,
                    out@.len() == (i as int) / 3 * 4,
                    forall|k: int|
                        #![trigger out@[4 * k]]
                        0 <= k < (i as int) / 3 ==> {
                            &&& out@[4 * k] == img.pixels@[3 * k]
                            &&& out@[4 * k + 1] == img.pixels@[3 * k + 1]
                            &&& out@[4 * k + 2] == img.pixels@[3 * k + 2]
                            &&& out@[4 * k + 3] == 255u8
                        },
                decreases len - i,
            {
                proof {
                    assert(len - i >= 3);
                }
                let ghost out0 = out@;
                out.push(img.pixels[i]);
                out.push(img.pixels[i + 1]);
                out.push(img.pixels[i + 2]);
                out.push(255u8);
                proof {
                    assert(forall|j: int| 0 <= j < out0.len() ==> out@[j] == out0[j]);
                    let q = (i as int) / 3;
                    assert(3 * q == i as int);
                    assert(out@[4 * q] == img.pixels@[3 * q]);
                    assert(out@[4 * q + 1] == img.pixels@[3 * q + 1]);
                    assert(out@[4 * q + 2] == img.pixels@[3 * q + 2]);
                    assert(out@[4 * q + 3] == 255u8);
                }
                i = i + 3;
            }
            proof {
                assert(out@.len() == wh * 4);
                assert(4 * (img.width as int) * (img.height as int) == wh * 4)
                    by (nonlinear_arith)
                    requires
                        wh == (img.width as int) * (img.height as int),
                ;
            }
            Ok(RgbaImage { width: img.width, height: img.height, pixels: out })
        },
        ImageFormat::Other => Err(LoadError::UnsupportedImageFormat),
    }
}

/// A decoded primitive carries every mandatory attribute (positions,
/// normals, indices) and its material reference, if any, is in bounds.
pub open spec fn primitive_valid(p: DecodedPrimitive, n_materials: int) -> bool {
    &&& p.positions is Some
    &&& p.normals is Some
    &&& p.indices is Some
    &&& match p.material_index {
        Some(i) => (i as int) < n_materials,
        None => true,
    }
}

/// The load failure a primitive raises: the first missing mandatory
/// attribute, or else its out-of-bounds material reference.
pub open spec fn primitive_error(p: DecodedPrimitive) -> LoadError {
    if p.positions is None {
        LoadError::MissingPositions
    } else if p.normals is None {
        LoadError::MissingNormals
    } else if p.indices is None {
        LoadError::MissingIndices
    } else {
        LoadError::PrimitiveMaterialOutOfBounds
    }
}

/// How a validated primitive relates to its decoded form: the mandatory
/// arrays and the material reference pass through; absent texture
/// coordinates become a zero pair per position.
pub open spec fn primitive_built(p: DecodedPrimitive, r: Primitive) -> bool {
    &&& r.positions@ == p.positions->0@
    &&& r.normals@ == p.normals->0@
    &&& r.indices@ == p.indices->0@
    &&& r.material_index == p.material_index
    &&& match p.tex_coords {
        Some(v) => r.tex_coords@ == v@,
        None => {
            &&& r.tex_coords@.len() == p.positions->0@.len()
            &&& forall|k: int|
                #![trigger r.tex_coords@[k]]
                0 <= k < r.tex_coords@.len() ==> r.tex_coords@[k]@[0] == 0u32
                    && r.tex_coords@[k]@[1] == 0u32
        },
    }
}

/// Validates one decoded primitive: positions, normals and indices are
/// mandatory; a missing texture coordinate array is replaced by zero pairs,
/// one per position; a material reference must be in bounds or absent.
pub fn build_primitive(p: DecodedPrimitive, n_materials: usize) -> (r: Result<
    Primitive,
    LoadError,
>)
    ensures
        r is Ok <==> primitive_valid(p, n_materials as int),
        r is Ok ==> primitive_built(p, r->Ok_0),
        r is Err ==> r->Err_0 == primitive_error(p),
{
    let DecodedPrimitive { positions, tex_coords, normals, indices, material_index } = p;
    let positions = match positions {
        Some(v) => v,
        None => {
            return Err(LoadError::MissingPositions);
        },
    };
    let normals = match normals {
        Some(v) => v,
        None => {
            return Err(LoadError::MissingNormals);
        },
    };
    let indices = match indices {
        Some(v) => v,
        None => {
            return Err(LoadError::MissingIndices);
        },
    };
    match material_index {
        Some(i) => {
            if i >= n_materials {
                return Err(LoadError::PrimitiveMaterialOutOfBounds);
            }
        },
        None => {},
    }
    let tex_coords = match tex_coords {
        Some(v) => v,
        None => {
            let mut tc: Vec<[u32; 2]> = Vec::new();
            while tc.len() < positions.len()
                invariant
                    tc@.len() <= positions@.len(),
                    forall|k: int|
                        #![trigger tc@[k]]
                        0 <= k < tc@.len() ==> tc@[k]@[0] == 0u32 && tc@[k]@[1] == 0u32,
                decreases positions@.len() - tc@.len(),
            {
                let zero_uv: [u32; 2] = [0u32, 0u32];
                tc.push(zero_uv);
            }
            tc
        },
    };
    Ok(Primitive { positions, tex_coords, normals, indices, material_index })
}

/// Every primitive of a decoded mesh is valid.
pub open spec fn mesh_valid(m: DecodedMesh, n_materials: int) -> bool {
    forall|i: int|
        0 <= i < m.primitives@.len() ==> primitive_valid(#[trigger] m.primitives@[i], n_materials)
}

/// How a validated mesh relates to its decoded form.
pub open spec fn mesh_built(m: DecodedMesh, r: Mesh) -> bool {
    &&& r.name == m.name
    &&& r.primitives@.len() == m.primitives@.len()
    &&& forall|i: int|
        #![trigger r.primitives@[i]]
        0 <= i < m.primitives@.len() ==> primitive_built(m.primitives@[i], r.primitives@[i])
}

/// Validates one decoded mesh primitive by primitive.
pub fn build_mesh(m: DecodedMesh, n_materials: usize) -> (r: Result<Mesh, LoadError>)
    ensures
        r is Ok <==> mesh_valid(m, n_materials as int),
        r is Ok ==> mesh_built(m, r->Ok_0),
        r is Err ==> exists|i: int|
            0 <= i < m.primitives@.len() && !primitive_valid(
                #[trigger] m.primitives@[i],
                n_materials as int,
            ) && r->Err_0 == primitive_error(m.primitives@[i]),
{
    let ghost orig = m.primitives@;
    let DecodedMesh { name, primitives } = m;
    proof {
        assert(primitives@ == orig);
    }
    let mut src = primitives;
    let mut rev: Vec<DecodedPrimitive> = Vec::new();
    proof {
        assert(src@ =~= orig.take(src@.len() as int));
    }
    while src.len() > 0
        invariant
            rev@.len() + src@.len() == orig.len(),
            src@ == orig.take(src@.len() as int),
            forall|k: int|
                #![trigger rev@[k]]
                0 <= k < rev@.len() ==> rev@[k] == orig[orig.len() - 1 - k],
        decreases src@.len(),
    {
        let e = src.pop().unwrap();
        proof {
            assert(orig.take(src@.len() as int + 1).drop_last() =~= orig.take(src@.len() as int));
        }
        rev.push(e);
    }
    let mut out: Vec<Primitive> = Vec::new();
    while rev.len() > 0
        invariant
            orig == m.primitives@,
            out@.len() + rev@.len() == orig.len(),
            forall|k: int|
                #![trigger rev@[k]]
                0 <= k < rev@.len() ==> rev@[k] == orig[orig.len() - 1 - k],
            forall|k: int|
                #![trigger orig[k]]
                #![trigger out@[k]]
                0 <= k < out@.len() ==> primitive_valid(orig[k], n_materials as int)
                    && primitive_built(orig[k], out@[k]),
        decreases rev@.len(),
    {
        let e = rev.pop().unwrap();
        proof {
            assert(e == orig[out@.len() as int]);
        }
        match build_primitive(e, n_materials) {
            Ok(prim) => {
                out.push(prim);
            },
            Err(err) => {
                return Err(err);
            },
        }
    }
    Ok(Mesh { name, primitives: out })
}

/// A decoded material's texture references are in bounds.
pub open spec fn material_refs_valid(m: Material, n_textures: int) -> bool {
    &&& match m.base_color_texture_index {
        Some(t) => (t as int) < n_textures,
        None => true,
    }
    &&& match m.normal_texture_index {
        Some(t) => (t as int) < n_textures,
        None => true,
    }
    &&& match m.metallic_roughness_texture_index {
        Some(t) => (t as int) < n_textures,
        None => true,
    }
}

/// A decoded node's child and mesh references are in bounds.
pub open spec fn node_refs_valid(n: Node, n_nodes: int, n_meshes: int) -> bool {
    &&& forall|k: int|
        0 <= k < n.children@.len() ==> ((#[trigger] n.children@[k]) as int) < n_nodes
    &&& match n.mesh_index {
        Some(m) => (m as int) < n_meshes,
        None => true,
    }
}

/// A decoded scene's root node references are in bounds.
pub open spec fn scene_refs_valid(s: Scene, n_nodes: int) -> bool {
    forall|k: int| 0 <= k < s.nodes@.len() ==> ((#[trigger] s.nodes@[k]) as int) < n_nodes
}

/// A validated mesh's material references are in bounds.
pub open spec fn built_mesh_wf(m: Mesh, n_materials: int) -> bool {
    forall|j: int|
        0 <= j < m.primitives@.len() ==> match (#[trigger] m.primitives@[j]).material_index {
            Some(mi) => (mi as int) < n_materials,
            None => true,
        }
}

/// Everything the importer checks of a decoded document: every weak
/// reference is in bounds or absent, every image is well-sized in an
/// accepted encoding, every primitive carries its mandatory attributes, and
/// the default scene index names a scene (index zero stands in when the
/// decoder supplies none).
pub open spec fn document_valid(doc: DecodedDocument) -> bool {
    &&& forall|i: int| 0 <= i < doc.images@.len() ==> image_valid(#[trigger] doc.images@[i])
    &&& forall|i: int|
        0 <= i < doc.textures@.len() ==> ((#[trigger] doc.textures@[i]).source_index as int)
            < doc.images@.len()
    &&& forall|i: int|
        0 <= i < doc.materials@.len() ==> material_refs_valid(
            #[trigger] doc.materials@[i],
            doc.textures@.len() as int,
        )
    &&& forall|i: int|
        0 <= i < doc.meshes@.len() ==> mesh_valid(
            #[trigger] doc.meshes@[i],
            doc.materials@.len() as int,
        )
    &&& forall|i: int|
        0 <= i < doc.nodes@.len() ==> node_refs_valid(
            #[trigger] doc.nodes@[i],
            doc.nodes@.len() as int,
            doc.meshes@.len() as int,
        )
    &&& forall|i: int|
        0 <= i < doc.scenes@.len() ==> scene_refs_valid(
            #[trigger] doc.scenes@[i],
            doc.nodes@.len() as int,
        )
    &&& match doc.default_scene_index {
        Some(i) => (i as int) < doc.scenes@.len(),
        None => doc.scenes@.len() > 0,
    }
}

/// The validated resource model: scenes, nodes, meshes, materials, textures,
/// raw buffers and normalized images, with every weak reference in bounds.
#[derive(Debug)]
pub struct Resources {
    pub scenes: Vec<Scene>,
    pub nodes: Vec<Node>,
    pub meshes: Vec<Mesh>,
    pub materials: Vec<Material>,
    pub textures: Vec<Texture>,
    pub buffers: Vec<Vec<u8>>,
    pub images: Vec<RgbaImage>,
    pub default_scene_index: usize,
}

impl Resources {
    /// The import contract: every weak reference is in bounds for its target
    /// array or absent, and every image holds exactly its RGBA8 bytes.
    pub open spec fn wf(self) -> bool {
        &&& (self.default_scene_index as int) < self.scenes@.len()
        &&& forall|s: int|
            0 <= s < self.scenes@.len() ==> scene_refs_valid(
                #[trigger] self.scenes@[s],
                self.nodes@.len() as int,
            )
        &&& forall|i: int|
            0 <= i < self.nodes@.len() ==> node_refs_valid(
                #[trigger] self.nodes@[i],
                self.nodes@.len() as int,
                self.meshes@.len() as int,
            )
        &&& forall|i: int|
            0 <= i < self.meshes@.len() ==> built_mesh_wf(
                #[trigger] self.meshes@[i],
                self.materials@.len() as int,
            )
        &&& forall|i: int|
            0 <= i < self.materials@.len() ==> material_refs_valid(
                #[trigger] self.materials@[i],
                self.textures@.len() as int,
            )
        &&& forall|i: int|
            0 <= i < self.textures@.len() ==> ((#[trigger] self.textures@[i]).source_index as int)
                < self.images@.len()
        &&& forall|i: int| 0 <= i < self.images@.len() ==> (#[trigger] self.images@[i]).wf()
    }
}

/// How the validated resources relate to the decoded document: scenes,
/// nodes, materials, textures and buffers pass through unchanged; meshes are
/// validated element-wise; images are normalized element-wise; an absent
/// default scene index becomes zero.
pub open spec fn resources_built(doc: DecodedDocument, r: Resources) -> bool {
    &&& r.scenes == doc.scenes
    &&& r.nodes == doc.nodes
    &&& r.materials == doc.materials
    &&& r.textures == doc.textures
    &&& r.buffers == doc.buffers
    &&& r.meshes@.len() == doc.meshes@.len()
    &&& forall|i: int|
        0 <= i < doc.meshes@.len() ==> mesh_built(doc.meshes@[i], #[trigger] r.meshes@[i])
    &&& r.images@.len() == doc.images@.len()
    &&& forall|i: int|
        0 <= i < doc.images@.len() ==> image_normalized(doc.images@[i], #[trigger] r.images@[i])
    &&& (r.default_scene_index as int) == match doc.default_scene_index {
        Some(i) => i as int,
        None => 0int,
    }
}

impl Resources {
    /// Validates a decoded document into the resource model.
    ///
    /// Succeeds exactly when the document is valid: all weak references in
    /// bounds or absent, all images well-sized in accepted encodings, all
    /// primitives complete, and a default scene present. Missing texture
    /// coordinates and RGB images are repaired, never rejected.
    #[verifier::loop_isolation(false)]
    pub fn from_decoded(doc: DecodedDocument) -> (r: Result<Resources, LoadError>)
        ensures
            r is Ok <==> document_valid(doc),
            r is Ok ==> resources_built(doc, r->Ok_0),
            r is Ok ==> r->Ok_0.wf(),
            r is Err && r->Err_0 == LoadError::DefaultSceneOutOfBounds ==> !(match doc.default_scene_index {
                Some(i) => (i as int) < doc.scenes@.len(),
                None => doc.scenes@.len() > 0,
            }),
            r is Err && r->Err_0 == LoadError::SceneNodeOutOfBounds ==> exists|i: int|
                0 <= i < doc.scenes@.len() && !scene_refs_valid(
                    #[trigger] doc.scenes@[i],
                    doc.nodes@.len() as int,
                ),
            r is Err && (r->Err_0 == LoadError::NodeMeshOutOfBounds || r->Err_0
                == LoadError::NodeChildOutOfBounds) ==> exists|i: int|
                0 <= i < doc.nodes@.len() && !node_refs_valid(
                    #[trigger] doc.nodes@[i],
                    doc.nodes@.len() as int,
                    doc.meshes@.len() as int,
                ),
            r is Err && r->Err_0 == LoadError::MaterialTextureOutOfBounds ==> exists|i: int|
                0 <= i < doc.materials@.len() && !material_refs_valid(
                    #[trigger] doc.materials@[i],
                    doc.textures@.len() as int,
                ),
            r is Err && r->Err_0 == LoadError::TextureSourceOutOfBounds ==> exists|i: int|
                0 <= i < doc.textures@.len() && ((#[trigger] doc.textures@[i]).source_index as int)
                    >= doc.images@.len(),
            r is Err && (r->Err_0 == LoadError::UnsupportedImageFormat || r->Err_0
                == LoadError::ImagePixelCountMismatch) ==> exists|i: int|
                0 <= i < doc.images@.len() && !image_valid(#[trigger] doc.images@[i]),
            r is Err && (r->Err_0 == LoadError::MissingPositions || r->Err_0
                == LoadError::MissingNormals || r->Err_0 == LoadError::MissingIndices || r->Err_0
                == LoadError::PrimitiveMaterialOutOfBounds) ==> exists|i: int|
                0 <= i < doc.meshes@.len() && !mesh_valid(
                    #[trigger] doc.meshes@[i],
                    doc.materials@.len() as int,
                ),
            r is Err ==> r->Err_0 != LoadError::DuplicateNodeReference,
    {
        let ghost gdoc = doc;
        let DecodedDocument {
            scenes,
            nodes,
            meshes,
            materials,
            textures,
            buffers,
            images,
            default_scene_index,
        } = doc;
        let ghost n_nodes = nodes@.len() as int;
        let ghost n_meshes = meshes@.len() as int;
        let ghost n_materials = materials@.len() as int;
        let ghost n_textures = textures@.len() as int;
        let ghost n_images = images@.len() as int;
        // The default scene: index zero stands in when the decoder names none.
        let default_scene_index: usize = match default_scene_index {
            Some(i) => i,
            None => 0,
        };
        if default_scene_index >= scenes.len() {
            return Err(LoadError::DefaultSceneOutOfBounds);
        }
        // Scene root references.
        let mut i: usize = 0;
        while i < scenes.len()
            invariant
                scenes@ == gdoc.scenes@,
                n_nodes == gdoc.nodes@.len() as int,
                nodes@.len() as int == n_nodes,
                i <= scenes@.len(),
                forall|s: int|
                    0 <= s < i ==> scene_refs_valid(#[trigger] scenes@[s], n_nodes),
            decreases scenes@.len() - i,
        {
            let sc = &scenes[i];
            let mut k: usize = 0;
            while k < sc.nodes.len()
                invariant
                    scenes@ == gdoc.scenes@,
                    n_nodes == gdoc.nodes@.len() as int,
                    nodes@.len() as int == n_nodes,
                    i < scenes@.len(),
                    sc == &scenes@[i as int],
                    k <= sc.nodes@.len(),
                    forall|j: int| 0 <= j < k ==> ((#[trigger] sc.nodes@[j]) as int) < n_nodes,
                decreases sc.nodes@.len() - k,
            {
                if sc.nodes[k] >= nodes.len() {
                    proof {
                        assert(!scene_refs_valid(gdoc.scenes@[i as int], n_nodes));
                    }
                    return Err(LoadError::SceneNodeOutOfBounds);
                }
                k += 1;
            }
            i += 1;
        }
        // Node child and mesh references.
        let mut i: usize = 0;
        while i < nodes.len()
            invariant
                nodes@ == gdoc.nodes@,
                n_nodes == gdoc.nodes@.len() as int,
                n_meshes == gdoc.meshes@.len() as int,
                meshes@.len() as int == n_meshes,
                i <= nodes@.len(),
                forall|s: int|
                    0 <= s < i ==> node_refs_valid(#[trigger] nodes@[s], n_nodes, n_meshes),
            decreases nodes@.len() - i,
        {
            let node = &nodes[i];
            match node.mesh_index {
                Some(mi) => {
                    if mi >= meshes.len() {
                        proof {
                            assert(!node_refs_valid(gdoc.nodes@[i as int], n_nodes, n_meshes));
                        }
                        return Err(LoadError::NodeMeshOutOfBounds);
                    }
                },
                None => {},
            }
            let mut k: usize = 0;
            while k < node.children.len()
                invariant
                    nodes@ == gdoc.nodes@,
                    n_nodes == gdoc.nodes@.len() as int,
                    n_meshes == gdoc.meshes@.len() as int,
                    i < nodes@.len(),
                    node == &nodes@[i as int],
                    k <= node.children@.len(),
                    forall|j: int|
                        0 <= j < k ==> ((#[trigger] node.children@[j]) as int) < n_nodes,
                decreases node.children@.len() - k,
            {
                if node.children[k] >= nodes.len() {
                    proof {
                        assert(!node_refs_valid(gdoc.nodes@[i as int], n_nodes, n_meshes));
                    }
                    return Err(LoadError::NodeChildOutOfBounds);
                }
                k += 1;
            }
            i += 1;
        }
        // Material texture references.
        let mut i: usize = 0;
        while i < materials.len()
            invariant
                materials@ == gdoc.materials@,
                n_textures == gdoc.textures@.len() as int,
                textures@.len() as int == n_textures,
                i <= materials@.len(),
                forall|s: int|
                    0 <= s < i ==> material_refs_valid(#[trigger] materials@[s], n_textures),
            decreases materials@.len() - i,
        {
            let m = &materials[i];
            let bad = match m.base_color_texture_index {
                Some(t) => t >= textures.len(),
                None => false,
            } || match m.normal_texture_index {
                Some(t) => t >= textures.len(),
                None => false,
            } || match m.metallic_roughness_texture_index {
                Some(t) => t >= textures.len(),
                None => false,
            };
            if bad {
                proof {
                    assert(!material_refs_valid(gdoc.materials@[i as int], n_textures));
                }
                return Err(LoadError::MaterialTextureOutOfBounds);
            }
            i += 1;
        }
        // Texture image references.
        let mut i: usize = 0;
        while i < textures.len()
            invariant
                textures@ == gdoc.textures@,
                n_images == gdoc.images@.len() as int,
                images@.len() as int == n_images,
                i <= textures@.len(),
                forall|s: int|
                    0 <= s < i ==> ((#[trigger] textures@[s]).source_index as int) < n_images,
            decreases textures@.len() - i,
        {
            if textures[i].source_index >= images.len() {
                return Err(LoadError::TextureSourceOutOfBounds);
            }
            i += 1;
        }
        // Normalize the images.
        let ghost orig_images = images@;
        let mut src_images = images;
        let mut rev_images: Vec<DecodedImage> = Vec::new();
        proof {
            assert(src_images@ =~= orig_images.take(src_images@.len() as int));
        }
        while src_images.len() > 0
            invariant
                rev_images@.len() + src_images@.len() == orig_images.len(),
                src_images@ == orig_images.take(src_images@.len() as int),
                forall|k: int|
                    #![trigger rev_images@[k]]
                    0 <= k < rev_images@.len() ==> rev_images@[k] == orig_images[orig_images.len()
                        - 1 - k],
            decreases src_images@.len(),
        {
            let e = src_images.pop().unwrap();
            proof {
                assert(orig_images.take(src_images@.len() as int + 1).drop_last()
                    =~= orig_images.take(src_images@.len() as int));
            }
            rev_images.push(e);
        }
        let mut out_images: Vec<RgbaImage> = Vec::new();
        while rev_images.len() > 0
            invariant
                orig_images == gdoc.images@,
                out_images@.len() + rev_images@.len() == orig_images.len(),
                forall|k: int|
                    #![trigger rev_images@[k]]
                    0 <= k < rev_images@.len() ==> rev_images@[k] == orig_images[orig_images.len()
                        - 1 - k],
                forall|k: int|
                    #![trigger orig_images[k]]
                    #![trigger out_images@[k]]
                    0 <= k < out_images@.len() ==> image_valid(orig_images[k]) && image_normalized(
                        orig_images[k],
                        out_images@[k],
                    ) && out_images@[k].wf(),
            decreases rev_images@.len(),
        {
            let e = rev_images.pop().unwrap();
            proof {
                assert(e == orig_images[out_images@.len() as int]);
            }
            match normalize_image(e) {
                Ok(img) => {
                    out_images.push(img);
                },
                Err(err) => {
                    return Err(err);
                },
            }
        }
        // Validate the meshes.
        let ghost orig_meshes = meshes@;
        let mut src_meshes = meshes;
        let mut rev_meshes: Vec<DecodedMesh> = Vec::new();
        proof {
            assert(src_meshes@ =~= orig_meshes.take(src_meshes@.len() as int));
        }
        while src_meshes.len() > 0
            invariant
                rev_meshes@.len() + src_meshes@.len() == orig_meshes.len(),
                src_meshes@ == orig_meshes.take(src_meshes@.len() as int),
                forall|k: int|
                    #![trigger rev_meshes@[k]]
                    0 <= k < rev_meshes@.len() ==> rev_meshes@[k] == orig_meshes[orig_meshes.len()
                        - 1 - k],
            decreases src_meshes@.len(),
        {
            let e = src_meshes.pop().unwrap();
            proof {
                assert(orig_meshes.take(src_meshes@.len() as int + 1).drop_last()
                    =~= orig_meshes.take(src_meshes@.len() as int));
            }
            rev_meshes.push(e);
        }
        let mut out_meshes: Vec<Mesh> = Vec::new();
        while rev_meshes.len() > 0
            invariant
                orig_meshes == gdoc.meshes@,
                n_materials == gdoc.materials@.len() as int,
                materials@.len() as int == n_materials,
                out_meshes@.len() + rev_meshes@.len() == orig_meshes.len(),
                forall|k: int|
                    #![trigger rev_meshes@[k]]
                    0 <= k < rev_meshes@.len() ==> rev_meshes@[k] == orig_meshes[orig_meshes.len()
                        - 1 - k],
                forall|k: int|
                    #![trigger orig_meshes[k]]
                    #![trigger out_meshes@[k]]
                    0 <= k < out_meshes@.len() ==> mesh_valid(orig_meshes[k], n_materials)
                        && mesh_built(orig_meshes[k], out_meshes@[k]),
            decreases rev_meshes@.len(),
        {
            let e = rev_meshes.pop().unwrap();
            proof {
                assert(e == orig_meshes[out_meshes@.len() as int]);
            }
            match build_mesh(e, materials.len()) {
                Ok(mesh) => {
                    out_meshes.push(mesh);
                },
                Err(err) => {
                    return Err(err);
                },
            }
        }
        let r = Resources {
            scenes,
            nodes,
            meshes: out_meshes,
            materials,
            textures,
            buffers,
            images: out_images,
            default_scene_index,
        };
        proof {
            assert forall|i: int| 0 <= i < r.meshes@.len() implies built_mesh_wf(
                #[trigger] r.meshes@[i],
                r.materials@.len() as int,
            ) by {
                assert(mesh_valid(orig_meshes[i], n_materials));
                assert(mesh_built(orig_meshes[i], r.meshes@[i]));
                assert forall|j: int|
                    0 <= j < r.meshes@[i].primitives@.len() implies match (
                #[trigger] r.meshes@[i].primitives@[j]).material_index {
                    Some(mi) => (mi as int) < n_materials,
                    None => true,
                } by {
                    assert(primitive_valid(orig_meshes[i].primitives@[j], n_materials));
                    assert(primitive_built(
                        orig_meshes[i].primitives@[j],
                        r.meshes@[i].primitives@[j],
                    ));
                };
            };
            assert(r.wf());
            assert(resources_built(gdoc, r));
        }
        Ok(r)
    }
}

} // verus!
