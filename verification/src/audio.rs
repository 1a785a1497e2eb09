//! Audio mixing pump decisions: capture backends push interleaved
//! stereo blocks tagged by source id; the pump mixes the
//! shortest run available across the sources that have data, so a source
//! that stops pushing drops out instead of stalling the stream, and emits
//! a silent block while no source has data, so the muxer never waits on
//! audio. The sample arithmetic of the mixer runs outside the library.

use vstd::prelude::*;

verus! {

/// Source id of the microphone (every other id is an application).
pub const MIC_ID: &'static str = "__mic__";

/// Samples mixed at most per run: about 10 ms of 48 kHz stereo.
pub const BLOCK: usize = 960;

/// Pace of the pump (ms): one block of samples lasts about this long, and
/// the pump waits at most this long for new samples.
pub const BLOCK_MS: u64 = 10;

/// What the pump emits next.
#[derive(Clone, Copy, Debug, PartialEq, Eq, Structural)]
pub enum PumpStep {
    /// Mix `len` samples from every source that has data.
    Mix { len: usize },
    /// No source has data: emit `len` zero samples.
    Silence { len: usize },
}

/// The shortest of the non-zero lengths in `lens`, `None` when all are
/// zero.
pub open spec fn min_nonzero(lens: Seq<usize>) -> Option<int>
    decreases lens.len(),
{
    if lens.len() == 0 {
        None
    } else {
        let rest = min_nonzero(lens.drop_last());
        let l = lens.last() as int;
        if l == 0 {
            rest
        } else {
            match rest {
                None => Some(l),
                Some(m) => Some(if l < m { l } else { m }),
            }
        }
    }
}

/// The number of samples the next run mixes from each source with data:
/// the shortest non-empty queue, at most one block; `None` when no source
/// has data.
pub open spec fn run_len(lens: Seq<usize>) -> Option<int> {
    match min_nonzero(lens) {
        None => None,
        Some(m) => Some(if m < BLOCK { m } else { BLOCK as int }),
    }
}

/// The length of the next mixed run given the queued sample count of each
/// source.
pub fn mix_run_len(queue_lens: &Vec<usize>) -> (r: Option<usize>)
    ensures
        match run_len(queue_lens@) {
            None => r is None,
            Some(n) => r matches Some(x) && x as int == n,
        },
{
    let mut best: Option<usize> = None;
    let mut i: usize = 0;
    while i < queue_lens.len()
        invariant
            i <= queue_lens.len(),
            match min_nonzero(queue_lens@.take(i as int)) {
                None => best is None,
                Some(m) => best matches Some(b) && b as int == m,
            },
        decreases queue_lens.len() - i,
    {
        proof {
            assert(queue_lens@.take(i + 1).drop_last() =~= queue_lens@.take(i as int));
            assert(queue_lens@.take(i + 1).last() == queue_lens@[i as int]);
        }
        let l = queue_lens[i];
        if l != 0 {
            best = match best {
                None => Some(l),
                Some(m) => Some(if l < m { l } else { m }),
            };
        }
        i = i + 1;
    }
    assert(queue_lens@.take(queue_lens.len() as int) =~= queue_lens@);
    match best {
        None => None,
        Some(m) => Some(if m < BLOCK { m } else { BLOCK }),
    }
}

/// The pump's next step for the queued sample count of each source: the
/// next mixed run while any source has data, otherwise one silent block of
/// `BLOCK` samples.
pub fn pump_step(queue_lens: &Vec<usize>) -> (r: PumpStep)
    ensures
        match run_len(queue_lens@) {
            Some(n) => r matches PumpStep::Mix { len } && len as int == n,
            None => r == (PumpStep::Silence { len: BLOCK }),
        },
{
    match mix_run_len(queue_lens) {
        Some(n) => PumpStep::Mix { len: n },
        None => PumpStep::Silence { len: BLOCK },
    }
}

/// A run never exceeds a block nor the data of any source that has some,
/// and it is empty only when no source has data.
pub proof fn run_len_bounds(lens: Seq<usize>)
    ensures
        run_len(lens) matches Some(n) ==> 0 < n <= BLOCK && forall|i: int|
            0 <= i < lens.len() && lens[i] > 0 ==> n <= lens[i],
        run_len(lens) is None <==> forall|i: int| 0 <= i < lens.len() ==> lens[i] == 0,
    decreases lens.len(),
{
    lemma_min_nonzero(lens);
}

proof fn lemma_min_nonzero(lens: Seq<usize>)
    ensures
        min_nonzero(lens) matches Some(m) ==> m > 0 && forall|i: int|
            0 <= i < lens.len() && lens[i] > 0 ==> m <= lens[i],
        min_nonzero(lens) is None <==> forall|i: int| 0 <= i < lens.len() ==> lens[i] == 0,
    decreases lens.len(),
{
    if lens.len() > 0 {
        let d = lens.drop_last();
        lemma_min_nonzero(d);
        assert forall|i: int| 0 <= i < d.len() implies d[i] == lens[i] by {}
        if min_nonzero(lens) is None {
            assert forall|i: int| 0 <= i < lens.len() implies lens[i] == 0 by {
                if i < d.len() {
                    assert(d[i] == lens[i]);
                }
            }
        }
    }
}

} // verus!
