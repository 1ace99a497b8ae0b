use vstd::prelude::*;

verus! {

/// One of the two roots of a ray's quadratic against a sphere.
#[derive(Clone, Copy, Debug, PartialEq, Eq, Structural)]
pub enum Root {
    /// `(-b - sqrt(disc)) / a`, the nearer point along the ray.
    Near,
    /// `(-b + sqrt(disc)) / a`, the farther point along the ray.
    Far,
}

/// The root a ray sees: none unless the discriminant is positive; then the
/// near root when it lies strictly inside the distance window, else the far
/// root when that does, else none.
pub open spec fn spec_visible_root(discriminant_positive: bool, near_inside: bool, far_inside: bool) -> Option<Root> {
    if !discriminant_positive {
        None
    } else if near_inside {
        Some(Root::Near)
    } else if far_inside {
        Some(Root::Far)
    } else {
        None
    }
}

/// Picks the visible root of a ray–sphere quadratic from three tests:
/// whether `b*b - a*c` is positive, and whether each root lies strictly
/// between the window's bounds. The roots are only read once the
/// discriminant is positive, so a grazing ray takes no square root of a
/// negative number.
pub fn visible_root(discriminant_positive: bool, near_inside: bool, far_inside: bool) -> (r: Option<Root>)
    ensures
        r == spec_visible_root(discriminant_positive, near_inside, far_inside),
{
    if discriminant_positive {
        if near_inside {
            return Some(Root::Near);
        }
        if far_inside {
            return Some(Root::Far);
        }
    }
    None
}

/// The nearer root wins whenever it is in the window, and a far root is only
/// reported when the near one is not.
pub proof fn lemma_near_root_first(near_inside: bool, far_inside: bool)
    ensures
        near_inside ==> spec_visible_root(true, near_inside, far_inside) == Some(Root::Near),
        spec_visible_root(true, near_inside, far_inside) == Some(Root::Far) ==> !near_inside
            && far_inside,
{
}

/// A ray whose discriminant is not positive (a miss, or a tangent one) is
/// reported as no hit.
pub proof fn lemma_no_root_without_positive_discriminant(near_inside: bool, far_inside: bool)
    ensures
        spec_visible_root(false, near_inside, far_inside) is None,
{
}

} // verus!
