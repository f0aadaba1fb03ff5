//! GPU-side materials.
//!
//! A material owns one uniform record of scalar factors and a bind group
//! description: the factors buffer plus three texture/sampler pairs at a
//! layout fixed when the render pipeline is created. A texture slot without
//! a decoded texture falls back to the shared default texture for that slot
//! (opaque white for base color and metallic-roughness, flat-up for
//! normals).
use vstd::prelude::*;

use crate::linalg::F32_ONE;
use crate::resources;
use crate::uniform::MaterialFactorsBinding;

verus! {

/// The bind group set index materials are bound at.
pub const MATERIAL_BIND_GROUP_INDEX: u32 = 2;

/// What a material's texture slot binds: a decoded texture by index, or one
/// of the shared fallback textures.
#[derive(Clone, Copy, Debug, PartialEq, Eq, Structural)]
pub enum TextureRef {
    /// The texture at this index of the model's texture array.
    Image(usize),
    /// The shared opaque-white fallback.
    DefaultBaseColor,
    /// The shared flat-up normal fallback.
    DefaultNormal,
}

/// One resource slot of a material's bind group.
#[derive(Clone, Copy, Debug, PartialEq, Eq, Structural)]
pub enum BindingResource {
    /// The material's factors uniform buffer.
    FactorsBuffer,
    /// A texture view.
    View(TextureRef),
    /// A texture sampler.
    Sampler(TextureRef),
}

/// One entry of a material's bind group: a binding index and the resource
/// bound there.
#[derive(Clone, Copy, Debug, PartialEq, Eq, Structural)]
pub struct BindGroupEntry {
    pub binding: u32,
    pub resource: BindingResource,
}

/// A GPU-side material: its name, its factors uniform record and the three
/// resolved texture slots of its bind group.
#[derive(Debug)]
pub struct Material {
    pub name: Option<String>,
    pub factors: MaterialFactorsBinding,
    pub base_color: TextureRef,
    pub normal: TextureRef,
    pub metallic_roughness: TextureRef,
}

/// The slot a decoded texture reference resolves to: the referenced texture,
/// or the given fallback.
pub open spec fn spec_slot(index: Option<usize>, fallback: TextureRef) -> TextureRef {
    match index {
        Some(i) => TextureRef::Image(i),
        None => fallback,
    }
}

/// The factors record a decoded material uploads.
pub open spec fn spec_factors(m: resources::Material) -> MaterialFactorsBinding {
    MaterialFactorsBinding {
        base_color_factor: m.base_color_factor,
        metallic_factor: m.metallic_factor,
        roughness_factor: m.roughness_factor,
    }
}

/// Every texture slot that names an image names one inside the texture
/// array.
pub open spec fn material_wf(m: Material, n_textures: int) -> bool {
    &&& match m.base_color {
        TextureRef::Image(i) => (i as int) < n_textures,
        _ => true,
    }
    &&& match m.normal {
        TextureRef::Image(i) => (i as int) < n_textures,
        _ => true,
    }
    &&& match m.metallic_roughness {
        TextureRef::Image(i) => (i as int) < n_textures,
        _ => true,
    }
}

/// The material a decoded material builds to.
pub open spec fn spec_material_of(m: resources::Material) -> Material {
    Material {
        name: m.name,
        factors: spec_factors(m),
        base_color: spec_slot(m.base_color_texture_index, TextureRef::DefaultBaseColor),
        normal: spec_slot(m.normal_texture_index, TextureRef::DefaultNormal),
        metallic_roughness: spec_slot(
            m.metallic_roughness_texture_index,
            TextureRef::DefaultBaseColor,
        ),
    }
}

impl Material {
    /// Builds the GPU material for one decoded material: the factors pass
    /// into the uniform record, and each absent texture reference falls back
    /// to the shared default for its slot.
    pub fn new(material: resources::Material) -> (r: Material)
        ensures
            r == spec_material_of(material),
    {
        let resources::Material {
            name,
            base_color_factor,
            metallic_factor,
            roughness_factor,
            base_color_texture_index,
            normal_texture_index,
            metallic_roughness_texture_index,
        } = material;
        let base_color = match base_color_texture_index {
            Some(i) => TextureRef::Image(i),
            None => TextureRef::DefaultBaseColor,
        };
        let normal = match normal_texture_index {
            Some(i) => TextureRef::Image(i),
            None => TextureRef::DefaultNormal,
        };
        let metallic_roughness = match metallic_roughness_texture_index {
            Some(i) => TextureRef::Image(i),
            None => TextureRef::DefaultBaseColor,
        };
        Material {
            name,
            factors: MaterialFactorsBinding {
                base_color_factor,
                metallic_factor,
                roughness_factor,
            },
            base_color,
            normal,
            metallic_roughness,
        }
    }

    /// The bind group this material presents to the pipeline: the factors
    /// buffer at binding 0, then a view/sampler pair per texture slot, in
    /// the slot order base color, normal, metallic-roughness.
    pub open spec fn spec_entries(self) -> Seq<BindGroupEntry> {
        seq![
            BindGroupEntry { binding: 0, resource: BindingResource::FactorsBuffer },
            BindGroupEntry { binding: 1, resource: BindingResource::View(self.base_color) },
            BindGroupEntry { binding: 2, resource: BindingResource::Sampler(self.base_color) },
            BindGroupEntry { binding: 3, resource: BindingResource::View(self.normal) },
            BindGroupEntry { binding: 4, resource: BindingResource::Sampler(self.normal) },
            BindGroupEntry { binding: 5, resource: BindingResource::View(self.metallic_roughness) },
            BindGroupEntry {
                binding: 6,
                resource: BindingResource::Sampler(self.metallic_roughness),
            },
        ]
    }

    /// Lays out this material's bind group entries.
    pub fn bind_group_entries(&self) -> (r: Vec<BindGroupEntry>)
        ensures
            r@ == self.spec_entries(),
    {
        let mut entries: Vec<BindGroupEntry> = Vec::new();
        entries.push(BindGroupEntry { binding: 0, resource: BindingResource::FactorsBuffer });
        entries.push(
            BindGroupEntry { binding: 1, resource: BindingResource::View(self.base_color) },
        );
        entries.push(
            BindGroupEntry { binding: 2, resource: BindingResource::Sampler(self.base_color) },
        );
        entries.push(BindGroupEntry { binding: 3, resource: BindingResource::View(self.normal) });
        entries.push(
            BindGroupEntry { binding: 4, resource: BindingResource::Sampler(self.normal) },
        );
        entries.push(
            BindGroupEntry { binding: 5, resource: BindingResource::View(self.metallic_roughness) },
        );
        entries.push(
            BindGroupEntry {
                binding: 6,
                resource: BindingResource::Sampler(self.metallic_roughness),
            },
        );
        proof {
            assert(entries@ =~= self.spec_entries());
        }
        entries
    }
}

/// The default material's value: the format's default factors (opaque
/// white base color, full metallic and roughness) with every texture slot
/// on its fallback.
pub open spec fn spec_default_material() -> Material {
    Material {
        name: None,
        factors: MaterialFactorsBinding {
            base_color_factor: [F32_ONE, F32_ONE, F32_ONE, F32_ONE],
            metallic_factor: F32_ONE,
            roughness_factor: F32_ONE,
        },
        base_color: TextureRef::DefaultBaseColor,
        normal: TextureRef::DefaultNormal,
        metallic_roughness: TextureRef::DefaultBaseColor,
    }
}

/// The material bound for primitives that name no material.
pub fn default_material() -> (r: Material)
    ensures
        r == spec_default_material(),
{
    Material {
        name: None,
        factors: MaterialFactorsBinding {
            base_color_factor: [F32_ONE, F32_ONE, F32_ONE, F32_ONE],
            metallic_factor: F32_ONE,
            roughness_factor: F32_ONE,
        },
        base_color: TextureRef::DefaultBaseColor,
        normal: TextureRef::DefaultNormal,
        metallic_roughness: TextureRef::DefaultBaseColor,
    }
}

/// The kind of resource a bind group entry carries, independent of which
/// texture it names.
pub open spec fn resource_kind(r: BindingResource) -> int {
    match r {
        BindingResource::FactorsBuffer => 0,
        BindingResource::View(_) => 1,
        BindingResource::Sampler(_) => 2,
    }
}

/// The bind group layout is a contract fixed at pipeline creation: any two
/// materials present the same binding indices with the same resource kinds,
/// entry for entry.
pub proof fn lemma_bind_group_layout_fixed(a: Material, b: Material)
    ensures
        a.spec_entries().len() == b.spec_entries().len(),
        forall|k: int|
            0 <= k < a.spec_entries().len() ==> (#[trigger] a.spec_entries()[k]).binding
                == b.spec_entries()[k].binding && resource_kind(a.spec_entries()[k].resource)
                == resource_kind(b.spec_entries()[k].resource),
{
    assert forall|k: int|
        0 <= k < a.spec_entries().len() implies (#[trigger] a.spec_entries()[k]).binding
        == b.spec_entries()[k].binding && resource_kind(a.spec_entries()[k].resource)
        == resource_kind(b.spec_entries()[k].resource) by {
        assert(0 <= k < 7);
    };
}

} // verus!
