//! Stars: decorative background entities gliding across the screen.

use vstd::prelude::*;
use crate::geometry::{size_wf, vector_wf, Point, Size, Vector};
use crate::rng::random_in_range;
use crate::trig::HALF_TURN;

verus! {

/// A background star; it glides leftwards and wraps around, at a speed
/// scaled by its own factor.
#[derive(Clone, Copy, Debug, PartialEq, Eq, Structural)]
pub struct Star {
    pub vector: Vector,
    /// The star's individual speed factor, scaled by 1000.
    pub speed: i64,
    /// The star's visual size, in milli-units; only read by the renderer.
    pub size: i64,
}

/// A star with an in-bounds pose and its factors within the sampled
/// ranges.
pub open spec fn star_wf(st: Star, s: Size) -> bool {
    &&& vector_wf(st.vector, s)
    &&& 1000 <= st.speed < 3000
    &&& 2000 <= st.size < 5000
}

impl Star {
    /// Creates a new star at a random point, heading left, with a random
    /// speed and size.
    pub fn new(bounds: &Size, rng: &mut rand::rngs::StdRng) -> (r: Star)
        requires
            size_wf(*bounds),
        ensures
            star_wf(r, *bounds),
            r.vector.direction == HALF_TURN,
    {
        let point = Point::random(rng, bounds);
        proof {
            vstd::arithmetic::div_mod::lemma_small_mod(180_000nat, 360_000nat);
        }
        Star {
            vector: Vector::new(point, HALF_TURN),
            speed: random_in_range(rng, 1000, 3000),
            size: random_in_range(rng, 2000, 5000),
        }
    }
}

} // verus!
