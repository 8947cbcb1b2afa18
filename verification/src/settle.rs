//! Settling a circuit solver to its operating point.
//!
//! A solver started cold takes a while to reach the DC operating point the
//! real circuit always sits at. The engine therefore runs the solver on
//! silence for a fixed number of samples once, and starts every instance from
//! that settled state.

use vstd::prelude::*;

verus! {

/// Samples of silence that settle the preamp solver (2 s at 88.2 kHz).
pub const PREAMP_SETTLE_SAMPLES: u32 = 176_400;

/// Samples of silence that settle the power-amp solver (1 s at 44.1 kHz).
pub const POWER_AMP_SETTLE_SAMPLES: u32 = 44_100;

/// `run` is a run of `step`: each state is an outcome of `step` on the one
/// before it.
pub open spec fn is_run<S, F: Fn(S) -> S>(step: F, run: Seq<S>) -> bool {
    forall|i: int| 0 <= i < run.len() - 1 ==> call_ensures(step, (#[trigger] run[i],), run[i + 1])
}

/// Runs the solver step `step` (one sample of silence) `samples` times,
/// starting from `init`, and returns the state reached.
pub fn compute_settled_state<S, F: Fn(S) -> S>(init: S, samples: u32, step: F) -> (settled: S)
    requires
        forall|s: S| call_requires(step, (s,)),
    ensures
        exists|run: Seq<S>|
            {
                &&& run.len() == samples + 1
                &&& run[0] == init
                &&& run.last() == settled
                &&& is_run(step, run)
            },
{
    let mut s = init;
    let ghost mut run: Seq<S> = seq![init];
    let mut i: u32 = 0;
    while i < samples
        invariant
            i <= samples,
            run.len() == i + 1,
            run[0] == init,
            run.last() == s,
            is_run(step, run),
            forall|x: S| call_requires(step, (x,)),
        decreases samples - i,
    {
        let ghost prev = s;
        s = step(s);
        proof {
            let r0 = run;
            run = run.push(s);
            assert forall|k: int| 0 <= k < run.len() - 1 implies call_ensures(step, (#[trigger] run[k],), run[k + 1]) by {
                if k < r0.len() - 1 {
                    assert(run[k] == r0[k] && run[k + 1] == r0[k + 1]);
                } else {
                    assert(run[k] == prev);
                }
            }
        }
        i += 1;
    }
    s
}

} // verus!
