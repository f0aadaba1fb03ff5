//! Material and texture building and the fixed vertex interface.
use nugget::material::{
    default_material, BindingResource, Material as GpuMaterial, TextureRef,
};
use nugget::resources::{
    MagFilter, Material, MinFilter, RgbaImage, Sampler, WrappingMode,
};
use nugget::texture::{DefaultTextures, SamplerConfig, Texture as GpuTexture};
use nugget::vertex::{VertexAttribute, VertexFormat};

fn decoded_material(
    base: Option<usize>,
    normal: Option<usize>,
    mr: Option<usize>,
) -> Material {
    Material {
        name: None,
        base_color_factor: [
            1f32.to_bits(),
            0.5f32.to_bits(),
            0.25f32.to_bits(),
            1f32.to_bits(),
        ],
        metallic_factor: 0.75f32.to_bits(),
        roughness_factor: 0.125f32.to_bits(),
        base_color_texture_index: base,
        normal_texture_index: normal,
        metallic_roughness_texture_index: mr,
    }
}

#[test]
fn material_references_resolve_to_textures() {
    let m = GpuMaterial::new(decoded_material(Some(3), Some(1), Some(0)));
    assert_eq!(m.base_color, TextureRef::Image(3));
    assert_eq!(m.normal, TextureRef::Image(1));
    assert_eq!(m.metallic_roughness, TextureRef::Image(0));
}

#[test]
fn material_missing_references_fall_back_to_defaults() {
    let m = GpuMaterial::new(decoded_material(None, None, None));
    assert_eq!(m.base_color, TextureRef::DefaultBaseColor);
    assert_eq!(m.normal, TextureRef::DefaultNormal);
    assert_eq!(m.metallic_roughness, TextureRef::DefaultBaseColor);
}

#[test]
fn material_factors_pass_into_the_uniform_record() {
    let m = GpuMaterial::new(decoded_material(None, None, None));
    assert_eq!(m.factors.base_color_factor[1], 0.5f32.to_bits());
    assert_eq!(m.factors.metallic_factor, 0.75f32.to_bits());
    assert_eq!(m.factors.roughness_factor, 0.125f32.to_bits());
}

#[test]
fn material_bind_group_has_the_fixed_seven_entry_layout() {
    let m = GpuMaterial::new(decoded_material(Some(2), None, None));
    let entries = m.bind_group_entries();
    assert_eq!(entries.len(), 7);
    for (i, e) in entries.iter().enumerate() {
        assert_eq!(e.binding, i as u32);
    }
    assert_eq!(entries[0].resource, BindingResource::FactorsBuffer);
    assert_eq!(entries[1].resource, BindingResource::View(TextureRef::Image(2)));
    assert_eq!(entries[2].resource, BindingResource::Sampler(TextureRef::Image(2)));
    assert_eq!(entries[3].resource, BindingResource::View(TextureRef::DefaultNormal));
    assert_eq!(entries[5].resource, BindingResource::View(TextureRef::DefaultBaseColor));
}

#[test]
fn material_default_binds_only_fallback_textures() {
    let m = default_material();
    assert_eq!(m.base_color, TextureRef::DefaultBaseColor);
    assert_eq!(m.normal, TextureRef::DefaultNormal);
    assert_eq!(m.metallic_roughness, TextureRef::DefaultBaseColor);
    assert_eq!(m.factors.base_color_factor, [1f32.to_bits(); 4]);
}

#[test]
fn texture_upload_copies_the_image_and_resolves_the_sampler() {
    let image = RgbaImage { width: 2, height: 1, pixels: vec![9, 8, 7, 6, 5, 4, 3, 2] };
    let sampler = Sampler {
        mag_filter: Some(MagFilter::Nearest),
        min_filter: None,
        wrap_s: WrappingMode::MirroredRepeat,
        wrap_t: WrappingMode::ClampToEdge,
    };
    let t = GpuTexture::new(Some(String::from("wood")), &image, &sampler);
    assert_eq!(t.pixels, image.pixels);
    assert_eq!((t.width, t.height), (2, 1));
    assert_eq!(
        t.sampler,
        SamplerConfig {
            mag_filter: MagFilter::Nearest,
            min_filter: MinFilter::Linear,
            wrap_s: WrappingMode::MirroredRepeat,
            wrap_t: WrappingMode::ClampToEdge,
        }
    );
}

#[test]
fn texture_defaults_hold_their_single_pixels() {
    let d = DefaultTextures::new();
    assert_eq!((d.base_color.width, d.base_color.height), (1, 1));
    assert_eq!(d.base_color.pixels, vec![0xff, 0xff, 0xff, 0xff]);
    assert_eq!((d.normal.width, d.normal.height), (1, 1));
    assert_eq!(d.normal.pixels, vec![0x80, 0x80, 0xff, 0xff]);
}

#[test]
fn texture_solid_color_builds_one_pixel() {
    let t = GpuTexture::create_solid_color_texture(None, [1, 2, 3, 4]);
    assert_eq!(t.pixels, vec![1, 2, 3, 4]);
    assert_eq!((t.width, t.height), (1, 1));
}

#[test]
fn vertex_attributes_have_fixed_formats_sizes_and_locations() {
    assert_eq!(VertexAttribute::Position.format(), VertexFormat::Vec3);
    assert_eq!(VertexAttribute::TexCoord.format(), VertexFormat::Vec2);
    assert_eq!(VertexAttribute::Normal.format(), VertexFormat::Vec3);
    assert_eq!(VertexAttribute::Tangent.format(), VertexFormat::Vec4);
    assert_eq!(VertexAttribute::Position.size(), 12);
    assert_eq!(VertexAttribute::TexCoord.size(), 8);
    assert_eq!(VertexAttribute::Tangent.size(), 16);
    assert_eq!(VertexAttribute::Position.location(), 0);
    assert_eq!(VertexAttribute::TexCoord.location(), 1);
    assert_eq!(VertexAttribute::Normal.location(), 2);
    assert_eq!(VertexAttribute::Tangent.location(), 3);
}
