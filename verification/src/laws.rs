//! Frame-level guarantees of the stepper, stated over the mathematical model
//! and proved once and for all: a decided frame outcome is stable under extra
//! fuel (so the simulation is deterministic), and a frame of non-positive
//! duration changes nothing.

use crate::rat::{rv_lt, rv_zero, Ratio};
use crate::sim::{lemma_run_stable, spec_run, RunV, SimV};
use vstd::prelude::*;

verus! {

/// Determinism: the outcome of a frame is a function of the starting state
/// and the frame duration alone; two decided runs agree no matter how much
/// fuel each was given.  Together with `step`'s postcondition, two `step`
/// calls from identical states with identical durations produce identical
/// results.
pub proof fn lemma_run_deterministic(s: SimV, rem: Ratio, n1: nat, n2: nat)
    requires
        spec_run(s, rem, n1) != RunV::OutOfFuel,
        spec_run(s, rem, n2) != RunV::OutOfFuel,
    ensures
        spec_run(s, rem, n1) == spec_run(s, rem, n2),
{
    if n1 <= n2 {
        lemma_run_stable(s, rem, n1, n2);
    } else {
        lemma_run_stable(s, rem, n2, n1);
    }
}

/// A frame of non-positive duration changes nothing: the state comes back
/// untouched whatever fuel the loop is given, and no collision is counted.
pub proof fn lemma_zero_dt_noop(s: SimV, rem: Ratio, fuel: nat)
    requires
        !rv_lt(rv_zero(), rem),
    ensures
        spec_run(s, rem, fuel) == RunV::Done(s),
{
}

} // verus!
