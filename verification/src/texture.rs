//! GPU-side textures.
//!
//! A texture here is what a backend uploads: the normalized RGBA8 pixel
//! block plus resolved sampler parameters. The two shared fallback textures
//! (opaque white for color, flat-up encoding for normals) are explicit
//! values created once per renderer and passed by reference into material
//! construction.
use vstd::prelude::*;

use crate::resources;
use crate::resources::{MagFilter, MinFilter, RgbaImage, WrappingMode};

verus! {

/// Resolved sampler parameters: a decoded sampler's filters with the
/// defaults filled in.
#[derive(Clone, Copy, Debug, PartialEq, Eq, Structural)]
pub struct SamplerConfig {
    pub mag_filter: MagFilter,
    pub min_filter: MinFilter,
    pub wrap_s: WrappingMode,
    pub wrap_t: WrappingMode,
}

/// The sampler parameters a decoded sampler resolves to: omitted filters
/// become linear filtering; wrap modes pass through.
pub open spec fn spec_resolve_sampler(s: resources::Sampler) -> SamplerConfig {
    SamplerConfig {
        mag_filter: match s.mag_filter {
            Some(f) => f,
            None => MagFilter::Linear,
        },
        min_filter: match s.min_filter {
            Some(f) => f,
            None => MinFilter::Linear,
        },
        wrap_s: s.wrap_s,
        wrap_t: s.wrap_t,
    }
}

/// A GPU-resident texture: its uploaded RGBA8 contents and its sampler.
#[derive(Debug)]
pub struct Texture {
    pub name: Option<String>,
    pub width: u32,
    pub height: u32,
    pub pixels: Vec<u8>,
    pub sampler: SamplerConfig,
}

impl Texture {
    /// The uploaded bytes cover exactly width x height RGBA quadruples.
    pub open spec fn wf(self) -> bool {
        self.pixels@.len() == 4 * (self.width as int) * (self.height as int)
    }
}

fn copy_bytes(src: &Vec<u8>) -> (r: Vec<u8>)
    ensures
        r@ == src@,
{
    let mut out: Vec<u8> = Vec::new();
    let mut i: usize = 0;
    while i < src.len()
        invariant
            i <= src@.len(),
            out@ == src@.take(i as int),
        decreases src@.len() - i,
    {
        out.push(src[i]);
        proof {
            assert(out@ =~= src@.take(i + 1 as int));
        }
        i += 1;
    }
    proof {
        assert(out@ =~= src@);
    }
    out
}

impl Texture {
    /// Uploads one decoded image as a texture, resolving its sampler
    /// parameters (omitted filters become linear filtering).
    pub fn new(name: Option<String>, image: &RgbaImage, sampler: &resources::Sampler) -> (r:
        Texture)
        ensures
            r.name == name,
            r.width == image.width,
            r.height == image.height,
            r.pixels@ == image.pixels@,
            r.sampler == spec_resolve_sampler(*sampler),
    {
        let mag_filter = match sampler.mag_filter {
            Some(f) => f,
            None => MagFilter::Linear,
        };
        let min_filter = match sampler.min_filter {
            Some(f) => f,
            None => MinFilter::Linear,
        };
        Texture {
            name,
            width: image.width,
            height: image.height,
            pixels: copy_bytes(&image.pixels),
            sampler: SamplerConfig {
                mag_filter,
                min_filter,
                wrap_s: sampler.wrap_s,
                wrap_t: sampler.wrap_t,
            },
        }
    }

    /// Builds a one-by-one texture of a single solid color with the default
    /// sampler.
    pub fn create_solid_color_texture(name: Option<String>, color: [u8; 4]) -> (r: Texture)
        ensures
            r.name == name,
            r.width == 1,
            r.height == 1,
            r.pixels@ =~= color@,
            r.sampler == default_sampler(),
    {
        let mut pixels: Vec<u8> = Vec::new();
        pixels.push(color[0]);
        pixels.push(color[1]);
        pixels.push(color[2]);
        pixels.push(color[3]);
        Texture {
            name,
            width: 1,
            height: 1,
            pixels,
            sampler: SamplerConfig {
                mag_filter: MagFilter::Linear,
                min_filter: MinFilter::Linear,
                wrap_s: WrappingMode::ClampToEdge,
                wrap_t: WrappingMode::ClampToEdge,
            },
        }
    }

    /// The shared fallback for a material without a base color texture: one
    /// opaque white pixel.
    pub fn default_base_color_texture() -> (r: Texture)
        ensures
            r.width == 1,
            r.height == 1,
            r.pixels@ =~= default_base_color_pixel(),
            r.sampler == default_sampler(),
    {
        let color: [u8; 4] = [0xff, 0xff, 0xff, 0xff];
        proof {
            assert(color@ =~= default_base_color_pixel());
        }
        Texture::create_solid_color_texture(None, color)
    }

    /// The shared fallback for a material without a normal texture: one
    /// pixel of the flat-up normal encoding (0.5, 0.5, 1.0 scaled to bytes).
    pub fn default_normal_texture() -> (r: Texture)
        ensures
            r.width == 1,
            r.height == 1,
            r.pixels@ =~= default_normal_pixel(),
            r.sampler == default_sampler(),
    {
        let color: [u8; 4] = [0x80, 0x80, 0xff, 0xff];
        proof {
            assert(color@ =~= default_normal_pixel());
        }
        Texture::create_solid_color_texture(None, color)
    }
}

/// The sampler parameters of the fallback textures.
pub open spec fn default_sampler() -> SamplerConfig {
    SamplerConfig {
        mag_filter: MagFilter::Linear,
        min_filter: MinFilter::Linear,
        wrap_s: WrappingMode::ClampToEdge,
        wrap_t: WrappingMode::ClampToEdge,
    }
}

/// Opaque white, the fallback base color pixel.
pub open spec fn default_base_color_pixel() -> Seq<u8> {
    seq![0xffu8, 0xffu8, 0xffu8, 0xffu8]
}

/// The flat-up normal encoding, the fallback normal pixel.
pub open spec fn default_normal_pixel() -> Seq<u8> {
    seq![0x80u8, 0x80u8, 0xffu8, 0xffu8]
}

/// The two shared fallback textures, created once at renderer
/// initialization and passed read-only into every material build.
#[derive(Debug)]
pub struct DefaultTextures {
    pub base_color: Texture,
    pub normal: Texture,
}

impl DefaultTextures {
    /// The fallbacks hold their documented single pixels.
    pub open spec fn wf(self) -> bool {
        &&& self.base_color.width == 1 && self.base_color.height == 1
        &&& self.base_color.pixels@ == default_base_color_pixel()
        &&& self.normal.width == 1 && self.normal.height == 1
        &&& self.normal.pixels@ == default_normal_pixel()
    }

    /// Creates both fallback textures.
    pub fn new() -> (r: DefaultTextures)
        ensures
            r.wf(),
    {
        DefaultTextures {
            base_color: Texture::default_base_color_texture(),
            normal: Texture::default_normal_texture(),
        }
    }
}

} // verus!
