//! Fan-in of a run: per-probe outcomes arrive in completion order, which
//! depends on network latency, and the aggregator restores sequence order
//! before anything reaches the caller.

use vstd::prelude::*;

use crate::outcome::{ProbeOutcome, SequencedOutcome};
use crate::request::PingFault;

verus! {

/// Collects one outcome slot per sequence number as probes complete, in
/// any order, and hands back the sequence-ordered result once every probe
/// has reported.
pub struct Aggregator {
    slots: Vec<Option<ProbeOutcome>>,
}

impl Aggregator {
    /// The outcome slot of each sequence number: `None` until that probe
    /// reports.
    pub closed spec fn slots(&self) -> Seq<Option<ProbeOutcome>> {
        self.slots@
    }

    /// How many probes this run expects.
    pub open spec fn count(&self) -> int {
        self.slots().len() as int
    }

    /// Every probe of the run has reported.
    pub open spec fn complete(&self) -> bool {
        forall|i: int| 0 <= i < self.count() ==> #[trigger] self.slots()[i] is Some
    }

    /// A fresh aggregator with one empty slot per expected probe.
    pub fn new(count: usize) -> (r: Aggregator)
        ensures
            r.count() == count,
            forall|i: int| 0 <= i < count ==> #[trigger] r.slots()[i] is None,
    {
        let mut slots: Vec<Option<ProbeOutcome>> = Vec::new();
        let mut i: usize = 0;
        while i < count
            invariant
                i <= count,
                slots@.len() == i,
                forall|j: int| 0 <= j < i ==> #[trigger] slots@[j] is None,
            decreases count - i,
        {
            slots.push(None);
            i = i + 1;
        }
        Aggregator { slots }
    }

    /// Records one probe's outcome as it completes. A sequence outside the
    /// run, or one that already reported, is rejected and leaves the
    /// collection unchanged: either would corrupt the run's bookkeeping.
    pub fn record(&mut self, sequence: usize, outcome: ProbeOutcome) -> (r: Result<(), PingFault>)
        ensures
            r is Ok <==> (sequence < old(self).count() && old(self).slots()[sequence as int]
                is None),
            r is Ok ==> final(self).slots() == old(self).slots().update(
                sequence as int,
                Some(outcome),
            ),
            r is Err ==> final(self).slots() == old(self).slots(),
            r is Err ==> r == Err::<(), PingFault>(PingFault::OutcomeConflict),
    {
        if sequence < self.slots.len() {
            if self.slots[sequence].is_none() {
                self.slots[sequence] = Some(outcome);
                Ok(())
            } else {
                Err(PingFault::OutcomeConflict)
            }
        } else {
            Err(PingFault::OutcomeConflict)
        }
    }

    /// Whether every probe of the run has reported.
    pub fn is_complete(&self) -> (r: bool)
        ensures
            r == self.complete(),
    {
        let mut i: usize = 0;
        while i < self.slots.len()
            invariant
                i <= self.slots@.len(),
                forall|j: int| 0 <= j < i ==> #[trigger] self.slots@[j] is Some,
            decreases self.slots@.len() - i,
        {
            if self.slots[i].is_none() {
                return false;
            }
            i = i + 1;
        }
        true
    }

    /// The sequence-ordered result of a complete run: entry `i` carries
    /// sequence `i` and the outcome probe `i` reported, regardless of the
    /// order the probes completed in. While any probe is still outstanding
    /// there is nothing to report and the run cannot be closed.
    pub fn finish(&self) -> (r: Result<Vec<SequencedOutcome>, PingFault>)
        ensures
            r is Ok <==> self.complete(),
            r matches Ok(out) ==> out@.len() == self.count(),
            r matches Ok(out) ==> forall|i: int|
                0 <= i < out@.len() ==> (#[trigger] out@[i]).sequence == i,
            r matches Ok(out) ==> forall|i: int|
                #![trigger out@[i]]
                #![trigger self.slots()[i]]
                0 <= i < out@.len() ==> Some(out@[i].outcome) == self.slots()[i],
            r is Err ==> r == Err::<Vec<SequencedOutcome>, PingFault>(PingFault::OutcomeMissing),
    {
        let mut out: Vec<SequencedOutcome> = Vec::new();
        let mut i: usize = 0;
        while i < self.slots.len()
            invariant
                i <= self.slots@.len(),
                out@.len() == i,
                forall|j: int| 0 <= j < i ==> (#[trigger] out@[j]).sequence == j,
                forall|j: int|
                    #![trigger out@[j]]
                    #![trigger self.slots@[j]]
                    0 <= j < i ==> Some(out@[j].outcome) == self.slots@[j],
            decreases self.slots@.len() - i,
        {
            match self.slots[i] {
                Some(o) => {
                    out.push(SequencedOutcome { sequence: i, outcome: o });
                },
                None => {
                    return Err(PingFault::OutcomeMissing);
                },
            }
            i = i + 1;
        }
        Ok(out)
    }
}

/// Sequence `k` appears among the collected outcomes.
pub open spec fn reports(collected: Seq<SequencedOutcome>, k: int) -> bool {
    exists|j: int| 0 <= j < collected.len() && (#[trigger] collected[j]).sequence == k
}

/// Every collected entry's sequence lies in `0..count`.
pub open spec fn in_range(collected: Seq<SequencedOutcome>, count: int) -> bool {
    forall|j: int| 0 <= j < collected.len() ==> (#[trigger] collected[j]).sequence < count
}

/// No sequence is reported twice.
pub open spec fn no_duplicates(collected: Seq<SequencedOutcome>) -> bool {
    forall|j1: int, j2: int|
        0 <= j1 < j2 < collected.len() ==> (#[trigger] collected[j1]).sequence != (
        #[trigger] collected[j2]).sequence
}

/// Every sequence in `0..count` is reported.
pub open spec fn covers(collected: Seq<SequencedOutcome>, count: int) -> bool {
    forall|k: int| 0 <= k < count ==> #[trigger] reports(collected, k)
}

/// `out` is the sequence-ordered reassembly of `collected`: entry `i`
/// carries sequence `i`, and holds the outcome that was collected for
/// sequence `i`, wherever in completion order that report arrived.
pub open spec fn reassembles(
    collected: Seq<SequencedOutcome>,
    count: int,
    out: Seq<SequencedOutcome>,
) -> bool {
    &&& out.len() == count
    &&& forall|i: int| 0 <= i < out.len() ==> (#[trigger] out[i]).sequence == i
    &&& forall|j: int|
        0 <= j < collected.len() && (#[trigger] collected[j]).sequence < count
            ==> out[collected[j].sequence as int].outcome == collected[j].outcome
}

/// Restores sequence order over the outcomes a run collected in completion
/// order: the fan-in step. Succeeds exactly when the collection is one
/// report per sequence of `0..count` — what every run whose probes all
/// reported once produces — and then returns the reassembly; completeness
/// and ordering are stated in the ensures. A foreign or repeated sequence
/// is a conflict; with a clean but incomplete collection some probe's
/// report is missing. Either way no partial result is handed out.
pub fn assemble(count: usize, collected: &Vec<SequencedOutcome>) -> (r: Result<
    Vec<SequencedOutcome>,
    PingFault,
>)
    ensures
        r is Ok <==> (in_range(collected@, count as int) && no_duplicates(collected@) && covers(
            collected@,
            count as int,
        )),
        r matches Ok(out) ==> reassembles(collected@, count as int, out@),
        r == Err::<Vec<SequencedOutcome>, PingFault>(PingFault::OutcomeConflict) <==> !(in_range(
            collected@,
            count as int,
        ) && no_duplicates(collected@)),
        r == Err::<Vec<SequencedOutcome>, PingFault>(PingFault::OutcomeMissing) <==> (in_range(
            collected@,
            count as int,
        ) && no_duplicates(collected@) && !covers(collected@, count as int)),
{
    let mut agg = Aggregator::new(count);
    let mut j: usize = 0;
    while j < collected.len()
        invariant
            agg.count() == count,
            j <= collected@.len(),
            forall|j2: int| 0 <= j2 < j ==> (#[trigger] collected@[j2]).sequence < count,
            forall|j1: int, j2: int|
                0 <= j1 < j2 < j ==> (#[trigger] collected@[j1]).sequence != (
                #[trigger] collected@[j2]).sequence,
            forall|j2: int|
                0 <= j2 < j ==> agg.slots()[(#[trigger] collected@[j2]).sequence as int] == Some(
                    collected@[j2].outcome,
                ),
            forall|k: int|
                0 <= k < count && #[trigger] agg.slots()[k] is Some ==> exists|j2: int|
                    0 <= j2 < j && (#[trigger] collected@[j2]).sequence == k,
        decreases collected@.len() - j,
    {
        let so = collected[j];
        let ghost pre = agg.slots();
        match agg.record(so.sequence, so.outcome) {
            Ok(_) => {
                proof {
                    assert forall|j1: int| 0 <= j1 < j implies (#[trigger] collected@[j1]).sequence
                        != so.sequence by {
                        if collected@[j1].sequence == so.sequence {
                            assert(pre[so.sequence as int] == Some(collected@[j1].outcome));
                        }
                    };
                }
            },
            Err(_) => {
                proof {
                    if so.sequence >= count {
                        assert(!in_range(collected@, count as int));
                    } else {
                        assert(pre[so.sequence as int] is Some);
                        let j1 = choose|j1: int|
                            0 <= j1 < j && (#[trigger] collected@[j1]).sequence
                                == so.sequence as int;
                        assert(collected@[j1].sequence == collected@[j as int].sequence);
                        assert(!no_duplicates(collected@));
                    }
                }
                return Err(PingFault::OutcomeConflict);
            },
        }
        j = j + 1;
    }
    match agg.finish() {
        Ok(out) => {
            proof {
                assert forall|k: int| 0 <= k < count as int implies #[trigger] reports(
                    collected@,
                    k,
                ) by {
                    assert(agg.slots()[k] is Some);
                };
                assert forall|j2: int|
                    0 <= j2 < collected@.len() && (#[trigger] collected@[j2]).sequence
                        < count implies out@[collected@[j2].sequence as int].outcome
                        == collected@[j2].outcome by {
                    assert(agg.slots()[collected@[j2].sequence as int] == Some(
                        collected@[j2].outcome,
                    ));
                    assert(Some(out@[collected@[j2].sequence as int].outcome) == agg.slots()[
                        collected@[j2].sequence as int]);
                };
            }
            Ok(out)
        },
        Err(_) => {
            proof {
                assert(!agg.complete());
                let k = choose|k: int| 0 <= k < agg.count() && !(#[trigger] agg.slots()[k]
                    is Some);
                if covers(collected@, count as int) {
                    assert(reports(collected@, k));
                    let j2 = choose|j2: int|
                        0 <= j2 < collected@.len() && (#[trigger] collected@[j2]).sequence == k;
                    assert(agg.slots()[k] == Some(collected@[j2].outcome));
                }
            }
            Err(PingFault::OutcomeMissing)
        },
    }
}

/// Isolation: when two runs' collected outcomes differ only in what the
/// probe with sequence `k` reported, their reassembled results agree on
/// every entry but `k`. One probe's fault or timeout cannot disturb what
/// is reported for its siblings.
pub proof fn lemma_isolation(
    count: int,
    a: Seq<SequencedOutcome>,
    b: Seq<SequencedOutcome>,
    out_a: Seq<SequencedOutcome>,
    out_b: Seq<SequencedOutcome>,
    k: int,
)
    requires
        covers(a, count),
        a.len() == b.len(),
        forall|j: int| 0 <= j < a.len() ==> (#[trigger] a[j]).sequence == b[j].sequence,
        forall|j: int|
            0 <= j < a.len() ==> ((#[trigger] a[j]).sequence != k ==> a[j].outcome
                == b[j].outcome),
        reassembles(a, count, out_a),
        reassembles(b, count, out_b),
    ensures
        forall|i: int| 0 <= i < count && i != k ==> #[trigger] out_a[i] == out_b[i],
{
    assert forall|i: int| 0 <= i < count && i != k implies #[trigger] out_a[i] == out_b[i] by {
        assert(reports(a, i));
        let j = choose|j: int| 0 <= j < a.len() && (#[trigger] a[j]).sequence == i;
        assert(out_a[i].outcome == a[j].outcome);
        assert(b[j].sequence == i);
        assert(out_b[i].outcome == b[j].outcome);
        assert(out_a[i].sequence == i && out_b[i].sequence == i);
    };
}

/// Repeated runs: two successful runs of one request, whatever outcomes
/// each run's probes produced, agree in length and both carry sequence `i`
/// at entry `i`; only the outcome values may differ between the runs.
pub proof fn lemma_runs_align(
    count: int,
    a: Seq<SequencedOutcome>,
    b: Seq<SequencedOutcome>,
    out_a: Seq<SequencedOutcome>,
    out_b: Seq<SequencedOutcome>,
)
    requires
        reassembles(a, count, out_a),
        reassembles(b, count, out_b),
    ensures
        out_a.len() == out_b.len(),
        forall|i: int|
            0 <= i < out_a.len() ==> (#[trigger] out_a[i]).sequence == (
            #[trigger] out_b[i]).sequence,
{
}

} // verus!
