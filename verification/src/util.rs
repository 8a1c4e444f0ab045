//! Collection helpers shared by the controllers.

use vstd::prelude::*;
use crate::geometry::{Point, Vector, MAX_DIM};
use crate::particle::{particle_wf, Particle};
use crate::trig::norm_angle;

verus! {

/// Retaining with swap-removal keeps a sub-multiset of the elements.
proof fn lemma_swap_remove_multiset<T>(s: Seq<T>, i: int)
    requires
        0 <= i < s.len(),
    ensures
        s.update(i, s.last()).drop_last().to_multiset() == s.to_multiset().remove(s[i]),
{
    broadcast use vstd::multiset::group_multiset_axioms;

    let u = s.update(i, s.last());
    vstd::seq_lib::to_multiset_update(s, i, s.last());
    assert(u.drop_last() =~= u.remove(u.len() - 1));
    vstd::seq_lib::to_multiset_remove(u, u.len() - 1);
    assert(u[u.len() - 1] == s.last());
    assert(s.to_multiset().insert(s.last()).remove(s[i]).remove(s.last()) =~= s.to_multiset()
        .remove(s[i]));
}

/// A version of `Vec::retain` that renounces keeping the original order:
/// a rejected element is replaced by the vector's last.  Every kept
/// element was accepted by the predicate, every dropped one was rejected
/// by it, and nothing is added.
pub fn fast_retain<T, F: Fn(&T) -> bool>(v: &mut Vec<T>, f: F)
    requires
        forall|t: &T| #[trigger] f.requires((t,)),
    ensures
        forall|x: T|
            #[trigger] final(v)@.to_multiset().count(x) <= old(v)@.to_multiset().count(x),
        forall|i: int|
            0 <= i < final(v)@.len() ==> call_ensures(f, (&final(v)@[i],), true),
        forall|x: T|
            #[trigger] final(v)@.to_multiset().count(x) < old(v)@.to_multiset().count(x)
                ==> call_ensures(f, (&x,), false),
{
    broadcast use vstd::multiset::group_multiset_axioms;

    let ghost orig = v@;
    let mut i: usize = 0;
    while i < v.len()
        invariant
            forall|t: &T| #[trigger] f.requires((t,)),
            i <= v@.len(),
            forall|x: T| #[trigger] v@.to_multiset().count(x) <= orig.to_multiset().count(x),
            forall|k: int| 0 <= k < i ==> call_ensures(f, (&v@[k],), true),
            forall|x: T|
                #[trigger] v@.to_multiset().count(x) < orig.to_multiset().count(x)
                    ==> call_ensures(f, (&x,), false),
        decreases v@.len() - i,
    {
        let keep = f(&v[i]);
        if keep {
            i = i + 1;
        } else {
            let ghost before = v@;
            let _ = v.swap_remove(i);
            proof {
                lemma_swap_remove_multiset(before, i as int);
                before.to_multiset_ensures();
                assert(before.to_multiset().contains(before[i as int]));
                assert(forall|k: int| 0 <= k < i ==> v@[k] == before[k]);
            }
        }
    }
}

/// The `k`-th particle of an explosion burst of the given intensity at the
/// given position: thirty evenly spread headings, each carrying a ladder
/// of lifetimes.
pub open spec fn explosion_particle(position: Point, intensity: int, k: int) -> Particle {
    let rot = k / (intensity - 1);
    let t = k % (intensity - 1);
    Particle {
        vector: Vector {
            position,
            direction: norm_angle((rot * 360_000) / 29) as i64,
        },
        ttl: ((t + 1) * 100) as i64,
    }
}

/// Generates a new explosion of the given intensity at the given
/// position: thirty headings around the full circle, with
/// `intensity - 1` particles of staggered lifetimes each.
pub fn make_explosion(particles: &mut Vec<Particle>, position: &Point, intensity: u8)
    requires
        1 <= intensity <= 25,
        -MAX_DIM <= position.x <= MAX_DIM,
        -MAX_DIM <= position.y <= MAX_DIM,
    ensures
        final(particles)@ == old(particles)@ + Seq::new(
            (30 * (intensity - 1)) as nat,
            |k: int| explosion_particle(*position, intensity as int, k),
        ),
        forall|k: int|
            old(particles)@.len() <= k < final(particles)@.len() ==> particle_wf(
                #[trigger] final(particles)@[k],
            ),
{
    let per_heading: usize = (intensity - 1) as usize;
    let count: usize = 30 * per_heading;
    let mut k: usize = 0;
    while k < count
        invariant
            1 <= intensity <= 25,
            per_heading == intensity - 1,
            count == 30 * per_heading,
            -MAX_DIM <= position.x <= MAX_DIM,
            -MAX_DIM <= position.y <= MAX_DIM,
            k <= count,
            particles@ == old(particles)@ + Seq::new(
                k as nat,
                |k2: int| explosion_particle(*position, intensity as int, k2),
            ),
            forall|k2: int|
                old(particles)@.len() <= k2 < particles@.len() ==> particle_wf(
                    #[trigger] particles@[k2],
                ),
        decreases count - k,
    {
        let rot = (k / per_heading) as i64;
        let t = (k % per_heading) as i64;
        let direction = (rot * 360_000) / 29;
        let ttl = (t + 1) * 100;
        proof {
            assert(k < 30 * per_heading);
            assert(k / per_heading < 30) by (nonlinear_arith)
                requires 0 < per_heading && k < 30 * per_heading;
            assert(0 <= rot * 360_000 <= 29 * 360_000) by (nonlinear_arith)
                requires 0 <= rot <= 29;
            vstd::arithmetic::div_mod::lemma_div_pos_is_pos((rot * 360_000) as int, 29int);
            vstd::arithmetic::div_mod::lemma_div_is_ordered(
                (rot * 360_000) as int,
                10_440_000int,
                29int,
            );
            assert(0 <= t < per_heading);
        }
        let particle = Particle::new(Vector::new(*position, direction), ttl);
        particles.push(particle);
        proof {
            assert(0 < particle.ttl <= 2400);
            assert(particles@ =~= old(particles)@ + Seq::new(
                (k + 1) as nat,
                |k2: int| explosion_particle(*position, intensity as int, k2),
            ));
        }
        k = k + 1;
    }
}

} // verus!
