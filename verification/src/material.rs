//! Whether a surface scatters a ray, and how.
//!
//! A diffuse surface always scatters. A metal scatters unless the fuzzed
//! reflection points into the surface. A dielectric always scatters: it
//! reflects where refraction has no solution, and otherwise reflects with the
//! probability that its reflectance gives, and refracts else.
use vstd::prelude::*;
use crate::order::{less, precedes, ONE, ZERO};
use crate::utilities::{random_double, unit};

verus! {

/// How a scattered ray leaves the surface.
#[derive(Clone, Copy, Debug, PartialEq, Eq, Structural)]
pub enum Bounce {
    /// About the normal, in a random direction.
    Diffuse,
    /// Mirrored at the surface.
    Reflect,
    /// Bent into the other medium.
    Refract,
}

/// A material at one hit, with what its scattering rule reads there. A real
/// quantity is given by its key.
#[derive(Clone, Copy, Debug, PartialEq, Eq, Structural)]
pub enum Material {
    Lambertian,
    /// `along_normal`: the dot product of the fuzzed reflection with the
    /// surface normal.
    Metal { along_normal: i64 },
    /// `ratio_sine`: the ratio of the refractive indices times the sine of the
    /// angle of incidence. `reflectance`: the probability of reflection where
    /// refraction has a solution, as the least numerator over `2^53` that is
    /// not below it.
    Dielectric { ratio_sine: i64, reflectance: u64 },
}

/// The fuzzed reflection leaves the surface: its dot product with the normal
/// is positive.
pub open spec fn leaves_surface(along_normal: i64) -> bool {
    precedes(0, along_normal as int)
}

/// Refraction has no solution: the ratio of the indices times the sine of
/// the angle of incidence exceeds one.
pub open spec fn total_reflection(ratio_sine: i64) -> bool {
    precedes(ONE as int, ratio_sine as int)
}

/// How a dielectric sends a ray on, given the draw `n / 2^53` from `[0, 1)`:
/// it reflects if it must, or if the draw lies below the reflectance.
pub open spec fn dielectric_choice(ratio_sine: i64, reflectance: u64, draw: u64) -> Bounce {
    if total_reflection(ratio_sine) || draw < reflectance {
        Bounce::Reflect
    } else {
        Bounce::Refract
    }
}

impl Material {
    /// What the material does with a ray when the draw from `[0, 1)` is
    /// `draw / 2^53`; `None` is absorption. Only a dielectric reads the draw.
    pub open spec fn scatters(self, draw: u64) -> Option<Bounce> {
        match self {
            Material::Lambertian => Some(Bounce::Diffuse),
            Material::Metal { along_normal } => if leaves_surface(along_normal) {
                Some(Bounce::Reflect)
            } else {
                None
            },
            Material::Dielectric { ratio_sine, reflectance } => Some(
                dielectric_choice(ratio_sine, reflectance, draw),
            ),
        }
    }

    /// What the material does with a ray for a given draw.
    pub fn scatter_with(&self, draw: u64) -> (r: Option<Bounce>)
        ensures
            r == self.scatters(draw),
    {
        match self {
            Material::Lambertian => lambertian_scatter(),
            Material::Metal { along_normal } => metal_scatter(*along_normal),
            Material::Dielectric { ratio_sine, reflectance } => Some(
                dielectric_bounce(*ratio_sine, *reflectance, draw),
            ),
        }
    }

    /// What the material does with a ray; `None` is absorption. A dielectric
    /// that can refract takes one draw from `[0, 1)`, and the result is the
    /// one that this draw gives; nothing else draws.
    pub fn scatter(&self) -> (r: Option<Bounce>)
        ensures
            exists|draw: u64| draw < unit() && r == self.scatters(draw),
            *self is Lambertian ==> r == Some(Bounce::Diffuse),
            *self is Metal ==> r == self.scatters(0),
            *self is Dielectric ==> r is Some && r != Some(Bounce::Diffuse),
    {
        match self {
            Material::Lambertian => {
                let r = lambertian_scatter();
                assert(r == self.scatters(0));
                r
            },
            Material::Metal { along_normal } => {
                let r = metal_scatter(*along_normal);
                assert(r == self.scatters(0));
                r
            },
            Material::Dielectric { ratio_sine, reflectance } => {
                let r = dielectric_scatter(*ratio_sine, *reflectance);
                proof {
                    let draw = choose|draw: u64|
                        draw < unit() && r == Some(
                            dielectric_choice(*ratio_sine, *reflectance, draw),
                        );
                    assert(r == self.scatters(draw));
                }
                r
            },
        }
    }
}

/// A diffuse surface scatters every ray.
pub fn lambertian_scatter() -> (r: Option<Bounce>)
    ensures
        r == Some(Bounce::Diffuse),
{
    Some(Bounce::Diffuse)
}

/// A metal reflects a ray whose fuzzed reflection leaves the surface, and
/// absorbs one whose fuzzed reflection points into it or along it:
/// `along_normal` is the key of the dot product of the fuzzed reflection with
/// the surface normal, and the ray is scattered if and only if that is
/// positive.
pub fn metal_scatter(along_normal: i64) -> (r: Option<Bounce>)
    ensures
        r == (Material::Metal { along_normal }).scatters(0),
        r is Some <==> leaves_surface(along_normal),
{
    if less(ZERO, along_normal) {
        Some(Bounce::Reflect)
    } else {
        None
    }
}

/// The dielectric's choice between reflection and refraction for a given
/// draw.
pub fn dielectric_bounce(ratio_sine: i64, reflectance: u64, draw: u64) -> (b: Bounce)
    ensures
        b == dielectric_choice(ratio_sine, reflectance, draw),
{
    if less(ONE, ratio_sine) || draw < reflectance {
        Bounce::Reflect
    } else {
        Bounce::Refract
    }
}

/// A dielectric never absorbs. Where the ratio of the indices times the sine
/// of the angle of incidence exceeds one, refraction has no solution: it
/// reflects and takes no draw. Otherwise it takes one draw from `[0, 1)`,
/// reflects if the draw lies below the reflectance and refracts if not: a
/// reflectance of zero always refracts, a reflectance of one always reflects.
pub fn dielectric_scatter(ratio_sine: i64, reflectance: u64) -> (r: Option<Bounce>)
    ensures
        exists|draw: u64|
            draw < unit() && r == Some(dielectric_choice(ratio_sine, reflectance, draw)),
        total_reflection(ratio_sine) || reflectance >= unit() ==> r == Some(Bounce::Reflect),
        !total_reflection(ratio_sine) && reflectance == 0 ==> r == Some(Bounce::Refract),
{
    if less(ONE, ratio_sine) {
        assert(Some(Bounce::Reflect) == Some(dielectric_choice(ratio_sine, reflectance, 0)));
        Some(Bounce::Reflect)
    } else {
        let draw: u64 = random_double();
        Some(dielectric_bounce(ratio_sine, reflectance, draw))
    }
}

} // verus!
