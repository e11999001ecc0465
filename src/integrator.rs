//! The decisions of the recursive radiance estimator, apart from the light
//! transport arithmetic itself.
//!
//! One step of the estimator looks at the remaining bounce budget and at what
//! the intersection and scattering queries reported, and picks what the
//! radiance of the ray is made of.

use vstd::prelude::*;

verus! {

/// What the radiance along a ray is made of.
#[derive(PartialEq, Eq, Structural, Clone, Copy, Debug)]
pub enum Shade {
    /// The bounce budget is spent: black.
    Terminate,
    /// The ray left the scene: the background.
    Background,
    /// The surface absorbs the ray, or offers no way to sample on: its
    /// emission only.
    Emitted,
    /// Emission plus the attenuated radiance along the specular ray, traced
    /// with `next_depth` bounces left.
    Specular { next_depth: i32 },
    /// Emission plus the importance-sampled radiance of one scattered ray,
    /// traced with `next_depth` bounces left.
    Sampled { next_depth: i32 },
}

/// The step taken with `depth` bounces left, given whether the ray hit
/// something, whether the material scattered it, whether that scattering is
/// specular, and whether the material supplied a sampling density.
pub open spec fn step_of(depth: i32, hit: bool, scattered: bool, specular: bool, has_pdf: bool) -> Shade {
    if depth <= 0 {
        Shade::Terminate
    } else if !hit {
        Shade::Background
    } else if !scattered {
        Shade::Emitted
    } else if specular {
        Shade::Specular { next_depth: (depth - 1) as i32 }
    } else if has_pdf {
        Shade::Sampled { next_depth: (depth - 1) as i32 }
    } else {
        Shade::Emitted
    }
}

/// Picks the step of the estimator; see [`Shade`].
pub fn integrator_step(depth: i32, hit: bool, scattered: bool, specular: bool, has_pdf: bool) -> (r: Shade)
    ensures
        r == step_of(depth, hit, scattered, specular, has_pdf),
        depth <= 0 ==> r == Shade::Terminate,
        depth > 0 && !hit ==> r == Shade::Background,
        depth > 0 && hit && !scattered ==> r == Shade::Emitted,
        depth > 0 && hit && scattered && specular ==> r == (Shade::Specular {
            next_depth: (depth - 1) as i32,
        }),
        depth > 0 && hit && scattered && !specular && has_pdf ==> r == (Shade::Sampled {
            next_depth: (depth - 1) as i32,
        }),
        depth > 0 && hit && scattered && !specular && !has_pdf ==> r == Shade::Emitted,
{
    if depth <= 0 {
        Shade::Terminate
    } else if !hit {
        Shade::Background
    } else if !scattered {
        Shade::Emitted
    } else if specular {
        Shade::Specular { next_depth: depth - 1 }
    } else if has_pdf {
        Shade::Sampled { next_depth: depth - 1 }
    } else {
        Shade::Emitted
    }
}

/// Every recursive step spends exactly one bounce, and only a positive budget
/// recurses, so the recursion stops after at most `depth` bounces.
pub proof fn lemma_recursion_spends_budget(depth: i32, hit: bool, scattered: bool, specular: bool, has_pdf: bool)
    ensures
        step_of(depth, hit, scattered, specular, has_pdf) matches Shade::Specular { next_depth }
            ==> 0 <= next_depth && next_depth == depth - 1,
        step_of(depth, hit, scattered, specular, has_pdf) matches Shade::Sampled { next_depth }
            ==> 0 <= next_depth && next_depth == depth - 1,
{
}

} // verus!
