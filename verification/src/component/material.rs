use vstd::prelude::*;

use crate::handles::{default_texture, PipelineKey, TextureHandle};

verus! {

/// The bit pattern of the single-precision number 1.0.
pub const ONE_F32_BITS: u32 = 0x3f80_0000;

/// How a mesh is shaded. The red, green and blue channels and the alpha
/// are single-precision numbers kept as their bit patterns.
#[derive(Clone, Copy, Debug, PartialEq, Eq, Structural)]
pub struct Material {
    pub red_bits: u32,
    pub green_bits: u32,
    pub blue_bits: u32,
    pub alpha_bits: u32,
    pub use_texture: bool,
    pub texture: TextureHandle,
    pub pipeline_key: PipelineKey,
}

impl Material {
    /// A material with the given fields.
    pub fn new(
        red_bits: u32,
        green_bits: u32,
        blue_bits: u32,
        alpha_bits: u32,
        use_texture: bool,
        texture: TextureHandle,
        pipeline_key: PipelineKey,
    ) -> (r: Self)
        ensures
            r == (Material { red_bits, green_bits, blue_bits, alpha_bits, use_texture, texture, pipeline_key }),
    {
        Material { red_bits, green_bits, blue_bits, alpha_bits, use_texture, texture, pipeline_key }
    }
}

impl Default for Material {
    /// Opaque white, untextured, drawn with the plain mesh pipeline.
    fn default() -> (r: Self)
        ensures
            r.red_bits == ONE_F32_BITS,
            r.green_bits == ONE_F32_BITS,
            r.blue_bits == ONE_F32_BITS,
            r.alpha_bits == ONE_F32_BITS,
            !r.use_texture,
            r.texture == TextureHandle(0),
            r.pipeline_key == PipelineKey::Mesh3D,
    {
        Material {
            red_bits: ONE_F32_BITS,
            green_bits: ONE_F32_BITS,
            blue_bits: ONE_F32_BITS,
            alpha_bits: ONE_F32_BITS,
            use_texture: false,
            texture: default_texture(),
            pipeline_key: PipelineKey::Mesh3D,
        }
    }
}

} // verus!
