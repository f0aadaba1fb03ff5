//! Vertex attribute classes and their fixed shader interface.
//!
//! Each attribute class is bound at a fixed shader location with a fixed
//! component format; the draw-command encoder binds one vertex buffer per
//! class at these locations.
use vstd::prelude::*;

verus! {

/// One vertex attribute class of the render pipeline.
#[derive(Clone, Copy, Debug, PartialEq, Eq, Structural)]
pub enum VertexAttribute {
    Position,
    TexCoord,
    Normal,
    Tangent,
}

/// The component layout of a vertex attribute: that many single-precision
/// components per vertex.
#[derive(Clone, Copy, Debug, PartialEq, Eq, Structural)]
pub enum VertexFormat {
    Vec2,
    Vec3,
    Vec4,
}

/// The component format of each attribute class.
pub open spec fn spec_format(a: VertexAttribute) -> VertexFormat {
    match a {
        VertexAttribute::Position => VertexFormat::Vec3,
        VertexAttribute::TexCoord => VertexFormat::Vec2,
        VertexAttribute::Normal => VertexFormat::Vec3,
        VertexAttribute::Tangent => VertexFormat::Vec4,
    }
}

/// The per-vertex byte size of a format: four bytes per component.
pub open spec fn spec_format_size(f: VertexFormat) -> u64 {
    match f {
        VertexFormat::Vec2 => 8,
        VertexFormat::Vec3 => 12,
        VertexFormat::Vec4 => 16,
    }
}

/// The fixed shader location of each attribute class.
pub open spec fn spec_location(a: VertexAttribute) -> u32 {
    match a {
        VertexAttribute::Position => 0,
        VertexAttribute::TexCoord => 1,
        VertexAttribute::Normal => 2,
        VertexAttribute::Tangent => 3,
    }
}

impl VertexAttribute {
    /// The component format this attribute is bound with.
    pub fn format(&self) -> (r: VertexFormat)
        ensures
            r == spec_format(*self),
    {
        match self {
            VertexAttribute::Position => VertexFormat::Vec3,
            VertexAttribute::TexCoord => VertexFormat::Vec2,
            VertexAttribute::Normal => VertexFormat::Vec3,
            VertexAttribute::Tangent => VertexFormat::Vec4,
        }
    }

    /// The per-vertex stride of this attribute's buffer, in bytes.
    pub fn size(&self) -> (r: u64)
        ensures
            r == spec_format_size(spec_format(*self)),
    {
        match self.format() {
            VertexFormat::Vec2 => 8,
            VertexFormat::Vec3 => 12,
            VertexFormat::Vec4 => 16,
        }
    }

    /// The shader location this attribute is bound at.
    pub fn location(&self) -> (r: u32)
        ensures
            r == spec_location(*self),
    {
        match self {
            VertexAttribute::Position => 0,
            VertexAttribute::TexCoord => 1,
            VertexAttribute::Normal => 2,
            VertexAttribute::Tangent => 3,
        }
    }
}

/// Distinct attribute classes are bound at distinct shader locations.
pub proof fn lemma_locations_distinct(a: VertexAttribute, b: VertexAttribute)
    requires
        a != b,
    ensures
        spec_location(a) != spec_location(b),
{
}

} // verus!
