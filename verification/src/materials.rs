//! Surface materials: reflectance and emission parameters in fixed point,
//! together with the stock materials the demonstration scene is built from.
//!
//! Colour channels are nominally in `[0, SCALE]` (the unit interval in fixed
//! point); `wf_material` makes that nominal range an invariant the tracer can
//! rely on.

use vstd::prelude::*;

use crate::fixed::SCALE;
use crate::vec3::Vec3;

verus! {

/// Upper bound on `emission_strength`, generous enough for any practical
/// light source while keeping accumulated radiance far from overflow.
pub const EMISSION_MAX: i64 = 0x4000_0000;

#[derive(Clone, Copy, Debug, PartialEq, Eq, Structural)]
pub struct Material {
    pub diffuse_color: Vec3,
    pub specular_color: Vec3,
    pub emission_color: Vec3,
    pub emission_strength: i64,
    pub smoothness: i64,
    pub specular_chance: i64,
}

/// Every channel of `v` lies in the fixed-point unit interval.
pub open spec fn color_in_unit(v: Vec3) -> bool {
    0 <= v.x <= SCALE && 0 <= v.y <= SCALE && 0 <= v.z <= SCALE
}

/// Well-formed material: colours in the unit interval, a non-negative bounded
/// emission strength, and blend weights in the unit interval.
pub open spec fn wf_material(m: Material) -> bool {
    &&& color_in_unit(m.diffuse_color)
    &&& color_in_unit(m.specular_color)
    &&& color_in_unit(m.emission_color)
    &&& 0 <= m.emission_strength <= EMISSION_MAX
    &&& 0 <= m.smoothness <= SCALE
    &&& 0 <= m.specular_chance <= SCALE
}

/// A material has no emission when its strength is zero.
pub open spec fn emissionless(m: Material) -> bool {
    m.emission_strength == 0
}

/// Builds a material from its fields, checking nothing; `wf_material` is the
/// callers' concern and is restated here so they need not unfold it.
pub fn material(
    diffuse_color: Vec3,
    specular_color: Vec3,
    emission_color: Vec3,
    emission_strength: i64,
    smoothness: i64,
    specular_chance: i64,
) -> (m: Material)
    ensures
        m == (Material {
            diffuse_color,
            specular_color,
            emission_color,
            emission_strength,
            smoothness,
            specular_chance,
        }),
{
    Material { diffuse_color, specular_color, emission_color, emission_strength, smoothness, specular_chance }
}

/// Matte white surface.
pub fn white_solid() -> (m: Material)
    ensures
        wf_material(m),
        emissionless(m),
        m.diffuse_color == (Vec3 { x: 65536, y: 65536, z: 65536 }),
        m == (Material {
            diffuse_color: Vec3 { x: 65536, y: 65536, z: 65536 },
            specular_color: Vec3 { x: 65536, y: 65536, z: 65536 },
            emission_color: Vec3 { x: 0, y: 0, z: 0 },
            emission_strength: 0,
            specular_chance: 6554,
            smoothness: 6554,
        }),
{
    Material {
        diffuse_color: Vec3 { x: 65536, y: 65536, z: 65536 },
        specular_color: Vec3 { x: 65536, y: 65536, z: 65536 },
        emission_color: Vec3 { x: 0, y: 0, z: 0 },
        emission_strength: 0,
        specular_chance: 6554,
        smoothness: 6554,
    }
}

/// Matte red surface.
pub fn red_solid() -> (m: Material)
    ensures
        wf_material(m),
        emissionless(m),
        m == (Material {
            diffuse_color: Vec3 { x: 65536, y: 6554, z: 6554 },
            specular_color: Vec3 { x: 65536, y: 0, z: 0 },
            emission_color: Vec3 { x: 0, y: 0, z: 0 },
            emission_strength: 0,
            specular_chance: 6554,
            smoothness: 6554,
        }),
{
    Material {
        diffuse_color: Vec3 { x: 65536, y: 6554, z: 6554 },
        specular_color: Vec3 { x: 65536, y: 0, z: 0 },
        emission_color: Vec3 { x: 0, y: 0, z: 0 },
        emission_strength: 0,
        specular_chance: 6554,
        smoothness: 6554,
    }
}

/// Matte green surface.
pub fn green_solid() -> (m: Material)
    ensures
        wf_material(m),
        emissionless(m),
        m == (Material {
            diffuse_color: Vec3 { x: 6554, y: 65536, z: 6554 },
            specular_color: Vec3 { x: 65536, y: 0, z: 0 },
            emission_color: Vec3 { x: 0, y: 0, z: 0 },
            emission_strength: 0,
            specular_chance: 6554,
            smoothness: 6554,
        }),
{
    Material {
        diffuse_color: Vec3 { x: 6554, y: 65536, z: 6554 },
        specular_color: Vec3 { x: 65536, y: 0, z: 0 },
        emission_color: Vec3 { x: 0, y: 0, z: 0 },
        emission_strength: 0,
        specular_chance: 6554,
        smoothness: 6554,
    }
}

/// Fully smooth white mirror.
pub fn white_mirror() -> (m: Material)
    ensures
        wf_material(m),
        emissionless(m),
        m == (Material {
            diffuse_color: Vec3 { x: 65536, y: 65536, z: 65536 },
            specular_color: Vec3 { x: 65536, y: 65536, z: 65536 },
            emission_color: Vec3 { x: 65536, y: 65536, z: 65536 },
            emission_strength: 0,
            specular_chance: 6554,
            smoothness: 65536,
        }),
{
    Material {
        diffuse_color: Vec3 { x: 65536, y: 65536, z: 65536 },
        specular_color: Vec3 { x: 65536, y: 65536, z: 65536 },
        emission_color: Vec3 { x: 65536, y: 65536, z: 65536 },
        emission_strength: 0,
        specular_chance: 6554,
        smoothness: 65536,
    }
}

/// Red-tinted mirror that always takes the specular branch.
pub fn red_mirror() -> (m: Material)
    ensures
        wf_material(m),
        emissionless(m),
        m == (Material {
            diffuse_color: Vec3 { x: 65536, y: 0, z: 0 },
            specular_color: Vec3 { x: 58982, y: 52429, z: 52429 },
            emission_color: Vec3 { x: 65536, y: 65536, z: 65536 },
            emission_strength: 0,
            specular_chance: 65536,
            smoothness: 65536,
        }),
{
    Material {
        diffuse_color: Vec3 { x: 65536, y: 0, z: 0 },
        specular_color: Vec3 { x: 58982, y: 52429, z: 52429 },
        emission_color: Vec3 { x: 65536, y: 65536, z: 65536 },
        emission_strength: 0,
        specular_chance: 65536,
        smoothness: 65536,
    }
}

/// Cyan-tinted, almost always specular mirror.
pub fn cyan_mirror() -> (m: Material)
    ensures
        wf_material(m),
        emissionless(m),
        m == (Material {
            diffuse_color: Vec3 { x: 65536, y: 65536, z: 65536 },
            specular_color: Vec3 { x: 52429, y: 58982, z: 58982 },
            emission_color: Vec3 { x: 65536, y: 65536, z: 65536 },
            emission_strength: 0,
            specular_chance: 58982,
            smoothness: 65536,
        }),
{
    Material {
        diffuse_color: Vec3 { x: 65536, y: 65536, z: 65536 },
        specular_color: Vec3 { x: 52429, y: 58982, z: 58982 },
        emission_color: Vec3 { x: 65536, y: 65536, z: 65536 },
        emission_strength: 0,
        specular_chance: 58982,
        smoothness: 65536,
    }
}

/// Pure white area light.
pub fn white_light() -> (m: Material)
    ensures
        wf_material(m),
        m.emission_strength == SCALE,
        m.emission_color == (Vec3 { x: 65536, y: 65536, z: 65536 }),
        m == (Material {
            diffuse_color: Vec3 { x: 0, y: 0, z: 0 },
            specular_color: Vec3 { x: 0, y: 0, z: 0 },
            emission_color: Vec3 { x: 65536, y: 65536, z: 65536 },
            emission_strength: 65536,
            specular_chance: 0,
            smoothness: 0,
        }),
{
    Material {
        diffuse_color: Vec3 { x: 0, y: 0, z: 0 },
        specular_color: Vec3 { x: 0, y: 0, z: 0 },
        emission_color: Vec3 { x: 65536, y: 65536, z: 65536 },
        emission_strength: 65536,
        specular_chance: 0,
        smoothness: 0,
    }
}

/// Cyan area light.
pub fn cyan_light() -> (m: Material)
    ensures
        wf_material(m),
        m.emission_strength == SCALE,
        m == (Material {
            diffuse_color: Vec3 { x: 0, y: 0, z: 0 },
            specular_color: Vec3 { x: 0, y: 0, z: 0 },
            emission_color: Vec3 { x: 0, y: 65536, z: 65536 },
            emission_strength: 65536,
            specular_chance: 0,
            smoothness: 0,
        }),
{
    Material {
        diffuse_color: Vec3 { x: 0, y: 0, z: 0 },
        specular_color: Vec3 { x: 0, y: 0, z: 0 },
        emission_color: Vec3 { x: 0, y: 65536, z: 65536 },
        emission_strength: 65536,
        specular_chance: 0,
        smoothness: 0,
    }
}

/// Faintly glowing white surface.
pub fn white_glow() -> (m: Material)
    ensures
        wf_material(m),
        m.emission_strength == 13107,
        m == (Material {
            diffuse_color: Vec3 { x: 65536, y: 65536, z: 65536 },
            specular_color: Vec3 { x: 65536, y: 65536, z: 65536 },
            emission_color: Vec3 { x: 65536, y: 65536, z: 65536 },
            emission_strength: 13107,
            specular_chance: 6554,
            smoothness: 6554,
        }),
{
    Material {
        diffuse_color: Vec3 { x: 65536, y: 65536, z: 65536 },
        specular_color: Vec3 { x: 65536, y: 65536, z: 65536 },
        emission_color: Vec3 { x: 65536, y: 65536, z: 65536 },
        emission_strength: 13107,
        specular_chance: 6554,
        smoothness: 6554,
    }
}

} // verus!
