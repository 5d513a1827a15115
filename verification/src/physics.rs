//! The forces on a body: how long each acts, and what it acts on.

use vstd::prelude::*;

verus! {

/// How long a force acts.
#[derive(Clone, Copy, Debug, PartialEq, Eq, Structural)]
pub enum ForceMode2D {
    /// Until the forces are reset.
    Continuous,
    /// For one simulation step.
    Impulse,
    /// Until this time, in nanoseconds on the host's clock.
    Timed(u64),
}

/// What a force changes in a simulation step.
#[derive(Clone, Copy, Debug, PartialEq, Eq, Structural)]
pub enum ForceTarget {
    Acceleration,
    Velocity,
}

/// A force of any representation with its mode.
pub struct Force2D<X> {
    pub force: X,
    pub mode: ForceMode2D,
}

/// What a force of this mode changes: an impulse the velocity, the others the
/// acceleration.
pub open spec fn target_of(mode: ForceMode2D) -> ForceTarget {
    match mode {
        ForceMode2D::Impulse => ForceTarget::Velocity,
        _ => ForceTarget::Acceleration,
    }
}

/// Whether a force of this mode still acts after a step at `now`.
pub open spec fn outlasts(mode: ForceMode2D, now: u64) -> bool {
    match mode {
        ForceMode2D::Continuous => true,
        ForceMode2D::Impulse => false,
        ForceMode2D::Timed(until) => now < until,
    }
}

/// The forces that still act after a step at `now`, in their order.
pub open spec fn remaining<X>(forces: Seq<Force2D<X>>, now: u64) -> Seq<Force2D<X>>
    decreases forces.len(),
{
    if forces.len() == 0 {
        forces
    } else if outlasts(forces.last().mode, now) {
        remaining(forces.drop_last(), now).push(forces.last())
    } else {
        remaining(forces.drop_last(), now)
    }
}

impl ForceMode2D {
    /// What a force of this mode changes in a step.
    pub fn target(&self) -> (target: ForceTarget)
        ensures
            target == target_of(*self),
    {
        match self {
            ForceMode2D::Impulse => ForceTarget::Velocity,
            _ => ForceTarget::Acceleration,
        }
    }

    /// Whether a force of this mode still acts after a step at `now`.
    pub fn outlasts_step(&self, now: u64) -> (stays: bool)
        ensures
            stays == outlasts(*self, now),
    {
        match self {
            ForceMode2D::Continuous => true,
            ForceMode2D::Impulse => false,
            ForceMode2D::Timed(until) => now < *until,
        }
    }
}

/// Drops the forces that a step at `now` has used up.
pub fn expire_forces<X>(forces: &mut Vec<Force2D<X>>, now: u64)
    ensures
        final(forces)@ == remaining(old(forces)@, now),
{
    let ghost all = forces@;
    let ghost mut k: int = 0;
    let mut i: usize = 0;
    assert(all.take(0) =~= Seq::<Force2D<X>>::empty());
    assert(all.skip(0) =~= all);
    while i < forces.len()
        invariant
            0 <= k <= all.len(),
            i == remaining(all.take(k), now).len(),
            forces@ == remaining(all.take(k), now) + all.skip(k),
        decreases forces.len() - i,
    {
        let ghost kept = remaining(all.take(k), now);
        proof {
            assert(forces@[i as int] == all.skip(k)[0]);
            assert(all.take(k + 1).drop_last() =~= all.take(k));
            assert(all.take(k + 1).last() == all[k]);
        }
        if forces[i].mode.outlasts_step(now) {
            proof {
                assert(forces@ =~= kept.push(all[k]) + all.skip(k + 1));
            }
            i = i + 1;
        } else {
            forces.remove(i);
            proof {
                assert(forces@ =~= kept + all.skip(k + 1));
            }
        }
        proof {
            k = k + 1;
        }
    }
    proof {
        assert(all.skip(k).len() == 0);
        assert(all.take(k) =~= all);
        assert(forces@ =~= remaining(all, now));
    }
}

} // verus!
