//! Load-failure taxonomy.
//!
//! A load either fully populates a model or fails with one of these values;
//! missing optional data (texcoords, textures, sampler parameters) is
//! recovered with defaults and never surfaces here.
use vstd::prelude::*;

verus! {

/// Why a load was rejected. Every variant is fatal to the load that raised
/// it and leaves any previously loaded model untouched.
#[derive(Clone, Copy, Debug, PartialEq, Eq, Structural)]
pub enum LoadError {
    /// A primitive has no position array.
    MissingPositions,
    /// A primitive has no normal array.
    MissingNormals,
    /// A primitive has no index array.
    MissingIndices,
    /// An image uses a pixel encoding the importer does not accept.
    UnsupportedImageFormat,
    /// An image's pixel byte count does not match its dimensions.
    ImagePixelCountMismatch,
    /// A texture's source index is outside the image array.
    TextureSourceOutOfBounds,
    /// A material references a texture index outside the texture array.
    MaterialTextureOutOfBounds,
    /// A primitive references a material index outside the material array.
    PrimitiveMaterialOutOfBounds,
    /// A node references a mesh index outside the mesh array.
    NodeMeshOutOfBounds,
    /// A node lists a child index outside the node array.
    NodeChildOutOfBounds,
    /// A scene lists a root node index outside the node array.
    SceneNodeOutOfBounds,
    /// The default scene index is outside the scene array.
    DefaultSceneOutOfBounds,
    /// A node is referenced more than once as a scene root or child, so the
    /// node graph is not a forest (a shared subtree or a cycle).
    DuplicateNodeReference,
}

/// The error families of the load pipeline.
#[derive(Clone, Copy, Debug, PartialEq, Eq, Structural)]
pub enum ErrorKind {
    /// Malformed or unsupported decoded data.
    Decode,
    /// A primitive lacks a mandatory vertex attribute.
    MissingAttribute,
    /// An out-of-bounds weak reference.
    Reference,
    /// The node graph is not a forest.
    Graph,
}

impl LoadError {
    /// The family a load failure belongs to.
    pub open spec fn spec_kind(self) -> ErrorKind {
        match self {
            LoadError::MissingPositions => ErrorKind::MissingAttribute,
            LoadError::MissingNormals => ErrorKind::MissingAttribute,
            LoadError::MissingIndices => ErrorKind::MissingAttribute,
            LoadError::UnsupportedImageFormat => ErrorKind::Decode,
            LoadError::ImagePixelCountMismatch => ErrorKind::Decode,
            LoadError::TextureSourceOutOfBounds => ErrorKind::Reference,
            LoadError::MaterialTextureOutOfBounds => ErrorKind::Reference,
            LoadError::PrimitiveMaterialOutOfBounds => ErrorKind::Reference,
            LoadError::NodeMeshOutOfBounds => ErrorKind::Reference,
            LoadError::NodeChildOutOfBounds => ErrorKind::Reference,
            LoadError::SceneNodeOutOfBounds => ErrorKind::Reference,
            LoadError::DefaultSceneOutOfBounds => ErrorKind::Reference,
            LoadError::DuplicateNodeReference => ErrorKind::Graph,
        }
    }

    /// The family a load failure belongs to.
    pub fn kind(&self) -> (k: ErrorKind)
        ensures
            k == self.spec_kind(),
    {
        match self {
            LoadError::MissingPositions => ErrorKind::MissingAttribute,
            LoadError::MissingNormals => ErrorKind::MissingAttribute,
            LoadError::MissingIndices => ErrorKind::MissingAttribute,
            LoadError::UnsupportedImageFormat => ErrorKind::Decode,
            LoadError::ImagePixelCountMismatch => ErrorKind::Decode,
            LoadError::TextureSourceOutOfBounds => ErrorKind::Reference,
            LoadError::MaterialTextureOutOfBounds => ErrorKind::Reference,
            LoadError::PrimitiveMaterialOutOfBounds => ErrorKind::Reference,
            LoadError::NodeMeshOutOfBounds => ErrorKind::Reference,
            LoadError::NodeChildOutOfBounds => ErrorKind::Reference,
            LoadError::SceneNodeOutOfBounds => ErrorKind::Reference,
            LoadError::DefaultSceneOutOfBounds => ErrorKind::Reference,
            LoadError::DuplicateNodeReference => ErrorKind::Graph,
        }
    }
}

} // verus!
