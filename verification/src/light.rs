//! The directional sun of a scene.

use crate::formula::{over, product, ratio, times, two};
use crate::numeric::{answers, computes, encoded, one, zero, Answer, Calc, Mat4, Quat, Real, Vec3};
use crate::text::same;
use vstd::prelude::*;

verus! {

/// Edge length of the shadow map in texels.
pub const SHADOW_MAP_SIZE: u32 = 2048;

#[derive(Clone, Copy, Debug, PartialEq, Eq, Structural)]
pub struct SceneLight {
    /// World-space travel direction (sun toward ground).
    pub direction: Vec3,
    pub shadows: bool,
}

/// The sun of a scene that names none.
#[verifier::allow_in_spec]
pub fn default_direction() -> Vec3
    returns
        (Vec3 {
            x: encoded(0xbeb3_3333),
            y: encoded(0xbf59_999a),
            z: encoded(0xbe80_0000),
        }),
{
    Vec3 { x: encoded(0xbeb3_3333), y: encoded(0xbf59_999a), z: encoded(0xbe80_0000) }
}

/// Shadows are on where a stored light does not say.
#[verifier::allow_in_spec]
pub fn default_true() -> bool
    returns
        true,
{
    true
}

impl Default for SceneLight {
    fn default() -> (r: Self)
        ensures
            r == (SceneLight { direction: default_direction(), shadows: true }),
    {
        SceneLight { direction: default_direction(), shadows: true }
    }
}

/// Depth that a lit surface is moved toward the sun before it is held against the shadow map.
#[verifier::allow_in_spec]
pub fn shadow_bias() -> Real
    returns
        encoded(0x39d1_b717),
{
    encoded(0x39d1_b717)
}

/// What the shaders know of a frame.
#[derive(Clone, Copy, Debug, PartialEq, Eq, Structural)]
pub struct FrameUniforms {
    pub view_proj: Mat4,
    pub light_view_proj: Mat4,
    pub light_dir: Quat,
    /// Bias, shadows on (1) or off (0), share of one texel, width of one texel in the world.
    pub shadow: Quat,
}

/// The direction of a light at length one; straight down if it has none.
pub open spec fn direction_of(light: SceneLight, g: spec_fn(Calc) -> Answer) -> Vec3 {
    let way = g(Calc::Unit(light.direction));
    if way.holds {
        way.point
    } else {
        Vec3 { x: zero(), y: encoded(0xbf80_0000), z: zero() }
    }
}

/// The direction of a light as it is used.
pub fn direction_vec<F: Fn(Calc) -> Answer>(light: &SceneLight, calc: &F) -> (r: Vec3)
    requires
        answers(*calc),
    ensures
        forall|g: spec_fn(Calc) -> Answer| #[trigger]
            computes(*calc, g) ==> r == direction_of(*light, g),
{
    let way = calc(Calc::Unit(light.direction));
    if way.holds {
        way.point
    } else {
        Vec3 { x: zero(), y: encoded(0xbf80_0000), z: zero() }
    }
}

/// The radius that the sun's view covers: between 4 and 24.
pub open spec fn covered_radius(radius: Real) -> Real {
    radius.held_within(encoded(0x4080_0000), encoded(0x41c0_0000))
}

/// The width of one texel of the shadow map in the world.
pub open spec fn texel_width(radius: Real, g: spec_fn(Calc) -> Answer) -> Real {
    over(g, times(g, two(), radius), encoded(0x4500_0000))
}

/// A coordinate moved down to a whole number of texels.
pub open spec fn snapped(v: Real, texel: Real, g: spec_fn(Calc) -> Answer) -> Real {
    times(g, g(Calc::Floor(over(g, v, texel))).value, texel)
}

/// The sun's view of a sphere: a parallel projection along its direction, snapped to texels.
pub open spec fn sun_view(
    light: SceneLight,
    center: Vec3,
    radius: Real,
    g: spec_fn(Calc) -> Answer,
) -> Mat4 {
    let d = direction_of(light, g);
    let r = covered_radius(radius);
    let texel = texel_width(r, g);
    let c = Vec3 {
        x: snapped(center.x, texel, g),
        y: snapped(center.y, texel, g),
        z: snapped(center.z, texel, g),
    };
    let way = g(Calc::Scale(d, times(g, r, encoded(0x400c_cccd)))).point;
    let eye = g(Calc::Gap(c, way)).point;
    let up = if encoded(0x3f6b_851f).less(d.y.absolute()) {
        Vec3 { x: zero(), y: zero(), z: one() }
    } else {
        Vec3 { x: zero(), y: one(), z: zero() }
    };
    g(
        Calc::Product(
            g(Calc::Parallel(r, encoded(0x3f00_0000), times(g, r, encoded(0x40a0_0000)))).matrix,
            g(Calc::View(eye, c, up)).matrix,
        ),
    ).matrix
}

fn texel_of<F: Fn(Calc) -> Answer>(radius: Real, calc: &F) -> (r: Real)
    requires
        answers(*calc),
    ensures
        forall|g: spec_fn(Calc) -> Answer| #[trigger]
            computes(*calc, g) ==> r == texel_width(radius, g),
{
    ratio(product(two(), radius, calc), encoded(0x4500_0000), calc)
}

fn snap<F: Fn(Calc) -> Answer>(v: Real, texel: Real, calc: &F) -> (r: Real)
    requires
        answers(*calc),
    ensures
        forall|g: spec_fn(Calc) -> Answer| #[trigger]
            computes(*calc, g) ==> r == snapped(v, texel, g),
{
    let whole = calc(Calc::Floor(ratio(v, texel, calc))).value;
    product(whole, texel, calc)
}

/// The sun's view of a sphere.
pub fn light_view_proj<F: Fn(Calc) -> Answer>(
    light: &SceneLight,
    center: Vec3,
    radius: Real,
    calc: &F,
) -> (r: Mat4)
    requires
        answers(*calc),
    ensures
        forall|g: spec_fn(Calc) -> Answer| #[trigger]
            computes(*calc, g) ==> r == sun_view(*light, center, radius, g),
{
    let d = direction_vec(light, calc);
    let r = radius.clamp(encoded(0x4080_0000), encoded(0x41c0_0000));
    let texel = texel_of(r, calc);
    let c = Vec3 {
        x: snap(center.x, texel, calc),
        y: snap(center.y, texel, calc),
        z: snap(center.z, texel, calc),
    };
    let way = calc(Calc::Scale(d, product(r, encoded(0x400c_cccd), calc))).point;
    let eye = calc(Calc::Gap(c, way)).point;
    let up = if encoded(0x3f6b_851f).lt(d.y.abs()) {
        Vec3 { x: zero(), y: zero(), z: one() }
    } else {
        Vec3 { x: zero(), y: one(), z: zero() }
    };
    let view = calc(Calc::View(eye, c, up)).matrix;
    let far = product(r, encoded(0x40a0_0000), calc);
    let flat = calc(Calc::Parallel(r, encoded(0x3f00_0000), far)).matrix;
    calc(Calc::Product(flat, view)).matrix
}

pub open spec fn packed(
    view_proj: Mat4,
    light: SceneLight,
    center: Vec3,
    radius: Real,
    g: spec_fn(Calc) -> Answer,
) -> FrameUniforms {
    let d = direction_of(light, g);
    FrameUniforms {
        view_proj,
        light_view_proj: sun_view(light, center, covered_radius(radius), g),
        light_dir: Quat { x: d.x, y: d.y, z: d.z, w: zero() },
        shadow: Quat {
            x: shadow_bias(),
            y: if light.shadows {
                one()
            } else {
                zero()
            },
            z: over(g, one(), encoded(0x4500_0000)),
            w: texel_width(covered_radius(radius), g),
        },
    }
}

/// What the shaders need to know of a frame that is lit by a sun over a sphere.
pub fn pack_frame<F: Fn(Calc) -> Answer>(
    view_proj: Mat4,
    light: &SceneLight,
    center: Vec3,
    radius: Real,
    calc: &F,
) -> (r: FrameUniforms)
    requires
        answers(*calc),
    ensures
        forall|g: spec_fn(Calc) -> Answer| #[trigger]
            computes(*calc, g) ==> r == packed(view_proj, *light, center, radius, g),
{
    let radius = radius.clamp(encoded(0x4080_0000), encoded(0x41c0_0000));
    let d = direction_vec(light, calc);
    FrameUniforms {
        view_proj,
        light_view_proj: light_view_proj(light, center, radius, calc),
        light_dir: Quat { x: d.x, y: d.y, z: d.z, w: zero() },
        shadow: Quat {
            x: shadow_bias(),
            y: if light.shadows {
                one()
            } else {
                zero()
            },
            z: ratio(one(), encoded(0x4500_0000), calc),
            w: texel_of(radius, calc),
        },
    }
}

/// The largest extent of a size, without signs.
pub open spec fn largest_extent(size: Vec3) -> Real {
    size.x.absolute().greater_of(size.y.absolute()).greater_of(size.z.absolute())
}

/// Too small to matter to the shadow map: below 0.35.
pub open spec fn is_bit(size: Vec3) -> bool {
    largest_extent(size).less(encoded(0x3eb3_3333))
}

/// Flat and wide: lower than 0.25 and more than 1.5 across.
pub open spec fn is_slab(size: Vec3) -> bool {
    size.y.absolute().less(encoded(0x3e80_0000)) && encoded(0x3fc0_0000).less(
        size.x.absolute().greater_of(size.z.absolute()),
    )
}

pub fn small_bit(size: Vec3) -> (r: bool)
    ensures
        r == is_bit(size),
{
    size.x.abs().max(size.y.abs()).max(size.z.abs()).lt(encoded(0x3eb3_3333))
}

/// Floors and small bits receive shadows without casting any; cubes and spheres cast.
pub fn casts_shadow(recipe: &str, size: Vec3) -> (r: bool)
    ensures
        r <==> recipe@ != "empty"@ && !is_bit(size) && !is_slab(size),
{
    if same(recipe, "empty") {
        return false;
    }
    if small_bit(size) {
        return false;
    }
    !(size.y.abs().lt(encoded(0x3e80_0000)) && encoded(0x3fc0_0000).lt(
        size.x.abs().max(size.z.abs()),
    ))
}

} // verus!
