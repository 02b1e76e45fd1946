use vstd::prelude::*;
use crate::body::Body;
use crate::collision::{all_wf, resolve_collisions, resolved};
use crate::motion::integrated;

verus! {

/// Every body of the registry advanced by one frame.
pub open spec fn integrated_all(s: Seq<Body>, width: int, height: int) -> Seq<Body> {
    s.map_values(|b: Body| integrated(b, width, height))
}

/// The registry after a whole frame: the collision pass, then the wall check
/// and move of every body.
pub open spec fn stepped(s: Seq<Body>, width: int, height: int) -> Seq<Body> {
    integrated_all(resolved(s), width, height)
}

/// Advances every body of the registry by one frame in the box
/// `[0, width] x [0, height]`.
pub fn integrate_all(bodies: &mut Vec<Body>, width: i64, height: i64)
    requires
        all_wf(old(bodies)@),
    ensures
        final(bodies)@ == integrated_all(old(bodies)@, width as int, height as int),
        all_wf(final(bodies)@),
{
    let n = bodies.len();
    let mut i: usize = 0;
    while i < n
        invariant
            n == bodies.len(),
            n == old(bodies).len(),
            i <= n,
            forall|k: int|
                0 <= k < i ==> bodies@[k] == integrated(
                    #[trigger] old(bodies)@[k],
                    width as int,
                    height as int,
                ),
            forall|k: int| i <= k < n ==> bodies@[k] == #[trigger] old(bodies)@[k],
            all_wf(bodies@),
        decreases n - i,
    {
        let mut b = bodies[i];
        b.integrate(width, height);
        bodies.set(i, b);
        i = i + 1;
    }
    assert(bodies@ =~= integrated_all(old(bodies)@, width as int, height as int));
}

/// One frame of the simulation: resolves every colliding pair, then applies
/// the wall check and moves every body.
pub fn step(bodies: &mut Vec<Body>, width: i64, height: i64)
    requires
        all_wf(old(bodies)@),
    ensures
        final(bodies)@ == stepped(old(bodies)@, width as int, height as int),
        all_wf(final(bodies)@),
{
    resolve_collisions(bodies);
    integrate_all(bodies, width, height);
}

} // verus!
