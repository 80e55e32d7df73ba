//! The decision core of the path integrator.
//!
//! The render loop walks a ray through bounce events, accumulating
//! emitted light into a color and multiplying attenuations into a running
//! throughput. That radiance arithmetic is real-valued and runs with the
//! caller; what is decided here, exactly, is the control of the walk:
//! when a path keeps bouncing and when it ends.

use vstd::prelude::*;

verus! {

/// How a material answered at a hit.
pub enum Scattering {
    /// The path was absorbed: emitters and the empty material end it.
    Absorbed,
    /// A deterministic mirror-like bounce: the throughput is scaled by the
    /// attenuation alone, no density weighting.
    Specular,
    /// A sampled bounce: the next direction comes from the mixture of the
    /// material's own sampling and the light-directed sampling, and the
    /// throughput is weighted by the scattering density over the
    /// mixture's density.
    Diffuse,
}

/// What one bounce of the walk saw.
pub enum BounceEvent {
    /// The ray left the scene; the atmosphere or darkness is final.
    Miss,
    /// The ray hit a surface, which answered as given.
    Surface(Scattering),
}

/// Whether the roulette termination is in play: only after the third
/// bounce, so that short paths are never cut.
pub fn roulette_applies(bounce: u32) -> (r: bool)
    ensures
        r == (bounce > 3),
{
    bounce > 3
}

/// Decide whether the path continues after this bounce.
///
/// The walk goes on exactly when the bounce limit is not reached, the ray
/// hit a surface that scattered (specular or sampled), and the roulette,
/// where it applies, let the path live. `roulette_kill` is the outcome of
/// the caller's draw against the kill probability.
pub fn path_continues(bounce: u32, bounces: u32, event: &BounceEvent, roulette_kill: bool) -> (r:
    bool)
    ensures
        r == (bounce < bounces && !(event is Miss) && !(event matches BounceEvent::Surface(s)
            && s is Absorbed) && !(bounce > 3 && roulette_kill)),
{
    if bounce >= bounces {
        return false;
    }
    match event {
        BounceEvent::Miss => false,
        BounceEvent::Surface(s) => match s {
            Scattering::Absorbed => false,
            _ => !(bounce > 3 && roulette_kill),
        },
    }
}

} // verus!
