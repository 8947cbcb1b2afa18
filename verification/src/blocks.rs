//! Cutting a run of samples into fixed-size render blocks.
//!
//! Long renders (the engine's warm-up on silence, rendering a whole note)
//! go through a bounded scratch buffer, so they run block by block: full
//! blocks of `chunk` samples and a shorter last one.

use vstd::prelude::*;

verus! {

/// `r` cuts `0..total` into blocks of `chunk` samples, in order, the last
/// one possibly shorter.
pub open spec fn is_chunking(r: Seq<(usize, usize)>, total: nat, chunk: nat) -> bool {
    &&& total == 0 ==> r.len() == 0
    &&& total > 0 ==> {
        &&& r.len() > 0
        &&& r[0].0 == 0
        &&& r.last().1 == total
    }
    &&& forall|k: int| 0 <= k < r.len() - 1 ==> (#[trigger] r[k]).1 == r[k + 1].0
    &&& forall|k: int| 0 <= k < r.len() - 1 ==> (#[trigger] r[k]).1 - r[k].0 == chunk
    &&& forall|k: int| 0 <= k < r.len() ==> 0 < (#[trigger] r[k]).1 - r[k].0 <= chunk
}

/// The blocks `(start, end)` that render `total` samples `chunk` at a time.
pub fn chunk_ranges(total: usize, chunk: usize) -> (r: Vec<(usize, usize)>)
    requires
        chunk > 0,
    ensures
        is_chunking(r@, total as nat, chunk as nat),
{
    let mut r: Vec<(usize, usize)> = Vec::new();
    let mut done: usize = 0;
    while done < total
        invariant
            chunk > 0,
            done <= total,
            done == 0 <==> r@.len() == 0,
            r@.len() > 0 ==> r@[0].0 == 0 && r@.last().1 == done,
            forall|k: int| 0 <= k < r@.len() - 1 ==> (#[trigger] r@[k]).1 == r@[k + 1].0,
            forall|k: int| 0 <= k < r@.len() - 1 ==> (#[trigger] r@[k]).1 - r@[k].0 == chunk,
            forall|k: int| 0 <= k < r@.len() ==> 0 < (#[trigger] r@[k]).1 - r@[k].0 <= chunk,
            r@.len() > 0 && r@.last().1 - r@.last().0 < chunk ==> done == total,
        decreases total - done,
    {
        let left = total - done;
        let len = if left < chunk { left } else { chunk };
        let ghost old_r = r@;
        r.push((done, done + len));
        proof {
            assert forall|k: int| 0 <= k < r@.len() - 1 implies (#[trigger] r@[k]).1 == r@[k + 1].0 by {
                if k < old_r.len() - 1 {
                    assert(r@[k] == old_r[k] && r@[k + 1] == old_r[k + 1]);
                } else {
                    assert(r@[k] == old_r.last());
                }
            }
            assert forall|k: int| 0 <= k < r@.len() - 1 implies (#[trigger] r@[k]).1 - r@[k].0 == chunk by {
                assert(r@[k] == old_r[k]);
            }
            assert forall|k: int| 0 <= k < r@.len() implies 0 < (#[trigger] r@[k]).1 - r@[k].0 <= chunk by {
                if k < old_r.len() {
                    assert(r@[k] == old_r[k]);
                }
            }
        }
        done = done + len;
    }
    r
}

} // verus!
