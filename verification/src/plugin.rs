//! Sample-accurate event handling of the plugin's process call.
//!
//! The host hands over a buffer of `num_samples` samples and the MIDI events
//! that fall in it, each with its sample offset. The engine renders the
//! buffer in blocks cut at the event offsets, handling every event at the
//! block boundary its offset falls on, so a note starts on its own sample.

use vstd::prelude::*;

verus! {

/// One step of a process call.
#[derive(Clone, Copy, Debug, PartialEq, Eq, Structural)]
pub enum ProcessStep {
    /// Hand event number `0` of the buffer to the engine.
    HandleEvent(usize),
    /// Render samples `start..end` of the buffer.
    Render { start: usize, end: usize },
}

/// The event numbers that the steps hand to the engine, in order.
pub open spec fn handled(steps: Seq<ProcessStep>) -> Seq<usize>
    decreases steps.len(),
{
    if steps.len() == 0 {
        Seq::empty()
    } else {
        match steps.last() {
            ProcessStep::HandleEvent(i) => handled(steps.drop_last()).push(i),
            ProcessStep::Render { .. } => handled(steps.drop_last()),
        }
    }
}

/// The number of samples that the steps have rendered (the end of the last
/// block).
pub open spec fn rendered(steps: Seq<ProcessStep>) -> nat
    decreases steps.len(),
{
    if steps.len() == 0 {
        0
    } else {
        match steps.last() {
            ProcessStep::HandleEvent(_) => rendered(steps.drop_last()),
            ProcessStep::Render { start, end } => end as nat,
        }
    }
}

/// The sample offset at which event `i` is handled: its own offset (at most
/// the buffer length), but never before an earlier event.
pub open spec fn event_boundary(timings: Seq<u32>, n: nat, i: int) -> nat
    decreases i,
{
    if i <= 0 {
        if timings[0] <= n { timings[0] as nat } else { n }
    } else {
        let prev = event_boundary(timings, n, i - 1);
        let own: nat = if timings[i] <= n { timings[i] as nat } else { n };
        if prev >= own { prev } else { own }
    }
}

/// Each step sits where the plan puts it: a render block starts where the
/// previous one ended and is not empty, an event is handled at its
/// boundary, and no two render blocks follow each other.
pub open spec fn steps_placed(steps: Seq<ProcessStep>, timings: Seq<u32>, n: nat) -> bool {
    &&& forall|p: int| 0 <= p < steps.len() ==> match #[trigger] steps[p] {
        ProcessStep::Render { start, end } => start == rendered(steps.take(p)) && start < end,
        ProcessStep::HandleEvent(i) => rendered(steps.take(p)) == event_boundary(timings, n, i as int),
    }
    &&& forall|p: int| 0 <= p < steps.len() - 1 ==> !((#[trigger] steps[p]) is Render && steps[p + 1] is Render)
}

/// The plan of a process call over `n` samples with events at `timings`:
/// the events are handled once each, in order, each one at its boundary;
/// render blocks are non-empty, follow each other without gap, never two in
/// a row, and cover the whole buffer.
pub open spec fn is_process_plan(steps: Seq<ProcessStep>, timings: Seq<u32>, n: nat) -> bool {
    &&& handled(steps) == Seq::new(timings.len(), |i: int| i as usize)
    &&& rendered(steps) == n
    &&& steps_placed(steps, timings, n)
}

/// `bs` is the boundary reached after `next` events were handled, or the
/// offset of event `next` that the last block ended on.
pub open spec fn at_boundary(timings: Seq<u32>, n: nat, next: int, bs: nat) -> bool {
    ||| next == 0 && bs == 0
    ||| next > 0 && bs == event_boundary(timings, n, next - 1)
    ||| next < timings.len() && bs == (if timings[next] <= n { timings[next] as nat } else { n })
        && (next == 0 || event_boundary(timings, n, next - 1) <= bs)
}

/// With event offsets in non-decreasing order, as hosts deliver them, each
/// event is handled exactly at its own offset, or after the last sample
/// when it lies past the end of the buffer.
pub proof fn lemma_sorted_events_at_own_offset(timings: Seq<u32>, n: nat, i: int)
    requires
        0 <= i < timings.len(),
        forall|a: int, b: int| 0 <= a <= b < timings.len() ==> timings[a] <= timings[b],
    ensures
        event_boundary(timings, n, i) == if timings[i] <= n { timings[i] as nat } else { n },
    decreases i,
{
    if i > 0 {
        lemma_sorted_events_at_own_offset(timings, n, i - 1);
        assert(timings[i - 1] <= timings[i]);
    }
}

proof fn lemma_push_prefix(steps: Seq<ProcessStep>, x: ProcessStep)
    ensures
        steps.push(x).drop_last() == steps,
        forall|p: int| 0 <= p <= steps.len() ==> #[trigger] steps.push(x).take(p) == steps.take(p),
{
    assert(steps.push(x).drop_last() =~= steps);
    assert forall|p: int| 0 <= p <= steps.len() implies #[trigger] steps.push(x).take(p) == steps.take(p) by {
        assert(steps.push(x).take(p) =~= steps.take(p));
    }
}

/// Handling event `i` at the boundary it belongs to keeps the steps placed.
#[verifier::spinoff_prover]
#[verifier::rlimit(30)]
proof fn lemma_push_handle(steps: Seq<ProcessStep>, timings: Seq<u32>, n: nat, i: usize)
    requires
        steps_placed(steps, timings, n),
        rendered(steps) == event_boundary(timings, n, i as int),
    ensures
        steps_placed(steps.push(ProcessStep::HandleEvent(i)), timings, n),
        rendered(steps.push(ProcessStep::HandleEvent(i))) == rendered(steps),
        handled(steps.push(ProcessStep::HandleEvent(i))) == handled(steps).push(i),
{
    let x = ProcessStep::HandleEvent(i);
    let s2 = steps.push(x);
    lemma_push_prefix(steps, x);
    assert(s2.take(steps.len() as int) == steps);
    assert forall|p: int| 0 <= p < s2.len() implies match #[trigger] s2[p] {
        ProcessStep::Render { start, end } => start == rendered(s2.take(p)) && start < end,
        ProcessStep::HandleEvent(i) => rendered(s2.take(p)) == event_boundary(timings, n, i as int),
    } by {
        if p < steps.len() {
            assert(s2[p] == steps[p]);
        }
    }
    assert forall|p: int| 0 <= p < s2.len() - 1 implies !((#[trigger] s2[p]) is Render && s2[p + 1] is Render) by {
        assert(s2[p] == steps[p]);
        if p + 1 < steps.len() {
            assert(s2[p + 1] == steps[p + 1]);
        }
    }
}

/// Rendering a non-empty block from where the last one ended, right after
/// a handled event (or first), keeps the steps placed.
#[verifier::spinoff_prover]
#[verifier::rlimit(30)]
proof fn lemma_push_render(steps: Seq<ProcessStep>, timings: Seq<u32>, n: nat, start: usize, end: usize)
    requires
        steps_placed(steps, timings, n),
        rendered(steps) == start,
        start < end,
        !(steps.len() > 0 && steps.last() is Render),
    ensures
        steps_placed(steps.push(ProcessStep::Render { start, end }), timings, n),
        rendered(steps.push(ProcessStep::Render { start, end })) == end,
        handled(steps.push(ProcessStep::Render { start, end })) == handled(steps),
{
    let x = ProcessStep::Render { start, end };
    let s2 = steps.push(x);
    lemma_push_prefix(steps, x);
    assert(s2.take(steps.len() as int) == steps);
    assert forall|p: int| 0 <= p < s2.len() implies match #[trigger] s2[p] {
        ProcessStep::Render { start, end } => start == rendered(s2.take(p)) && start < end,
        ProcessStep::HandleEvent(i) => rendered(s2.take(p)) == event_boundary(timings, n, i as int),
    } by {
        if p < steps.len() {
            assert(s2[p] == steps[p]);
        }
    }
    assert forall|p: int| 0 <= p < s2.len() - 1 implies !((#[trigger] s2[p]) is Render && s2[p + 1] is Render) by {
        assert(s2[p] == steps[p]);
        if p + 1 < steps.len() {
            assert(s2[p + 1] == steps[p + 1]);
        } else {
            assert(steps.last() == steps[p]);
        }
    }
}

/// Plans the process call of a buffer of `num_samples` samples whose events
/// fall at the sample offsets `timings`. An empty buffer is left alone,
/// events included.
pub fn plan_process(timings: &Vec<u32>, num_samples: usize) -> (steps: Vec<ProcessStep>)
    ensures
        num_samples == 0 ==> steps@.len() == 0,
        num_samples > 0 ==> is_process_plan(steps@, timings@, num_samples as nat),
{
    let mut steps: Vec<ProcessStep> = Vec::new();
    if num_samples == 0 {
        return steps;
    }
    let ghost t = timings@;
    let ghost n = num_samples as nat;
    let len = timings.len();
    let mut block_start: usize = 0;
    let mut next: usize = 0;
    assert(handled(steps@) =~= Seq::new(0nat, |i: int| i as usize));
    while block_start < num_samples
        invariant
            t == timings@,
            n == num_samples as nat,
            n > 0,
            len == t.len(),
            next <= len,
            block_start <= num_samples,
            handled(steps@) == Seq::new(next as nat, |i: int| i as usize),
            rendered(steps@) == block_start,
            next < len ==> at_boundary(t, n, next as int, block_start as nat),
            steps@.len() > 0 && steps@.last() is Render ==> (block_start == num_samples
                || (next < len && t[next as int] <= block_start)),
            steps_placed(steps@, t, n),
        decreases num_samples - block_start,
    {
        // Drain events at or before the current block boundary.
        while next < len && (timings[next] as usize) <= block_start
            invariant
                t == timings@,
                n == num_samples as nat,
                len == t.len(),
                next <= len,
                block_start < num_samples,
                handled(steps@) == Seq::new(next as nat, |i: int| i as usize),
                rendered(steps@) == block_start,
                next < len ==> at_boundary(t, n, next as int, block_start as nat),
                steps@.len() > 0 && steps@.last() is Render ==> (next < len && t[next as int] <= block_start),
                steps_placed(steps@, t, n),
            decreases len - next,
        {
            let ghost old_steps = steps@;
            assert(event_boundary(t, n, next as int) == block_start);
            steps.push(ProcessStep::HandleEvent(next));
            proof {
                lemma_push_handle(old_steps, t, n, next);
                assert(handled(steps@) =~= Seq::new((next + 1) as nat, |i: int| i as usize));
            }
            next += 1;
        }
        let block_end: usize = if next < len {
            let te = timings[next] as usize;
            if te < num_samples { te } else { num_samples }
        } else {
            num_samples
        };
        let ghost old_steps = steps@;
        steps.push(ProcessStep::Render { start: block_start, end: block_end });
        proof {
            lemma_push_render(old_steps, t, n, block_start, block_end);
            if next < len {
                assert(next == 0 || event_boundary(t, n, next - 1) <= block_start);
            }
        }
        block_start = block_end;
    }
    // Events at or past the end of the buffer are handled after its last sample.
    while next < len
        invariant
            t == timings@,
            n == num_samples as nat,
            n > 0,
            len == t.len(),
            next <= len,
            block_start == num_samples,
            handled(steps@) == Seq::new(next as nat, |i: int| i as usize),
            rendered(steps@) == block_start,
            next < len ==> at_boundary(t, n, next as int, block_start as nat),
            steps_placed(steps@, t, n),
        decreases len - next,
    {
        let ghost old_steps = steps@;
        assert(event_boundary(t, n, next as int) == block_start);
        steps.push(ProcessStep::HandleEvent(next));
        proof {
            lemma_push_handle(old_steps, t, n, next);
            assert(handled(steps@) =~= Seq::new((next + 1) as nat, |i: int| i as usize));
        }
        next += 1;
    }
    steps
}

} // verus!
