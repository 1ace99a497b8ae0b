use vstd::prelude::*;
use crate::integrator::Event;

verus! {

/// The three scattering laws a surface can follow.
#[derive(Clone, Copy, Debug, PartialEq, Eq, Structural)]
pub enum MaterialKind {
    /// Diffuse: scatters towards a random point of the unit sphere that
    /// touches the surface.
    Lambertian,
    /// Mirror with fuzz: reflects, then perturbs; absorbs what the perturbation
    /// turns into the surface.
    Metal,
    /// Glass: refracts or reflects, never absorbs.
    Dielectric,
}

/// How a ray leaves a glass surface.
#[derive(Clone, Copy, Debug, PartialEq, Eq, Structural)]
pub enum GlassBounce {
    Reflect,
    Refract,
}

/// The integrator's event for a hit on a surface of `kind`, where
/// `leaves_surface` tells whether a metal's perturbed reflection points away
/// from the surface (its dot product with the normal is positive).
pub open spec fn spec_hit_event(kind: MaterialKind, leaves_surface: bool) -> Event {
    match kind {
        MaterialKind::Metal => if leaves_surface {
            Event::Scattered
        } else {
            Event::Absorbed
        },
        _ => Event::Scattered,
    }
}

/// The glass decision: with no refracted direction (total internal reflection)
/// the ray reflects; otherwise it reflects exactly when the uniform draw fell
/// below the Schlick reflectance.
pub open spec fn spec_glass_bounce(can_refract: bool, draw_below_reflectance: bool) -> GlassBounce {
    if can_refract && !draw_below_reflectance {
        GlassBounce::Refract
    } else {
        GlassBounce::Reflect
    }
}

/// Whether a hit on a surface of `kind` sends the ray on or absorbs it.
pub fn hit_event(kind: MaterialKind, leaves_surface: bool) -> (e: Event)
    ensures
        e == spec_hit_event(kind, leaves_surface),
{
    match kind {
        MaterialKind::Lambertian => Event::Scattered,
        MaterialKind::Metal => {
            if leaves_surface {
                Event::Scattered
            } else {
                Event::Absorbed
            }
        },
        MaterialKind::Dielectric => Event::Scattered,
    }
}

/// Chooses between the reflected and the refracted ray at a glass surface.
/// `can_refract` tells whether Snell's law gave a direction (its discriminant
/// was positive); `draw_below_reflectance` whether the random draw, made only
/// in that case, fell below the reflectance.
pub fn glass_bounce(can_refract: bool, draw_below_reflectance: bool) -> (b: GlassBounce)
    ensures
        b == spec_glass_bounce(can_refract, draw_below_reflectance),
        !can_refract ==> b == GlassBounce::Reflect,
{
    if can_refract {
        if draw_below_reflectance {
            GlassBounce::Reflect
        } else {
            GlassBounce::Refract
        }
    } else {
        GlassBounce::Reflect
    }
}

/// Under total internal reflection glass reflects, whatever the draw.
pub proof fn lemma_total_internal_reflection_reflects(draw_below_reflectance: bool)
    ensures
        spec_glass_bounce(false, draw_below_reflectance) == GlassBounce::Reflect,
{
}

/// Only metal absorbs: diffuse and glass surfaces always send the ray on.
pub proof fn lemma_only_metal_absorbs(kind: MaterialKind, leaves_surface: bool)
    ensures
        spec_hit_event(kind, leaves_surface) == Event::Absorbed ==> kind == MaterialKind::Metal,
        spec_hit_event(kind, leaves_surface) != Event::Escaped,
{
}

} // verus!
