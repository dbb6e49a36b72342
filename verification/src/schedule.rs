//! The staggered launch plan of a run: when each probe starts and when it
//! must give up.
//!
//! Probe `i` launches `i * delay` milliseconds into the run and carries the
//! absolute deadline `i * delay + expire`. Staggering lets one probe's
//! expiry window overlap the next probe's send, so a whole run finishes by
//! `(count - 1) * delay + expire` rather than `count * expire`.

use vstd::arithmetic::mul::lemma_mul_inequality;
use vstd::prelude::*;

use crate::request::{PingFault, PingParam};

verus! {

/// One probe's launch plan, in milliseconds from the run's start.
#[derive(Clone, Copy, Debug, PartialEq, Eq, Structural)]
pub struct ProbeTask {
    /// The probe's position in the run, in `0..count`.
    pub sequence: usize,
    /// When this probe launches: `sequence * delay` after the run starts.
    pub start_offset: u64,
    /// When this probe must have replied: `start_offset + expire`.
    pub deadline: u64,
}

/// The wall-clock bound on a whole run, in milliseconds: the last probe's
/// deadline `(count - 1) * delay + expire`, or zero for an empty run.
pub open spec fn spec_run_bound(param: PingParam) -> int {
    if param.count == 0 {
        0
    } else {
        (param.count - 1) * param.delay + param.expire
    }
}

/// Builds the staggered launch plan of a run: one task per sequence in
/// `0..count`, in order, each with its start offset and absolute deadline.
///
/// Succeeds exactly on valid requests; a zero expiry or a deadline past the
/// representable millisecond range is rejected as `InvalidRequest`. Every
/// planned deadline lies within the run's duration bound, which is what
/// bounds the whole staggered run's wall-clock time.
pub fn plan(param: &PingParam) -> (r: Result<Vec<ProbeTask>, PingFault>)
    ensures
        r is Ok <==> param.valid(),
        r matches Ok(tasks) ==> tasks@.len() == param.count,
        r matches Ok(tasks) ==> forall|i: int|
            0 <= i < tasks@.len() ==> (#[trigger] tasks@[i]).sequence == i,
        r matches Ok(tasks) ==> forall|i: int|
            0 <= i < tasks@.len() ==> (#[trigger] tasks@[i]).start_offset == i * param.delay,
        r matches Ok(tasks) ==> forall|i: int|
            0 <= i < tasks@.len() ==> (#[trigger] tasks@[i]).deadline == i * param.delay
                + param.expire,
        r matches Ok(tasks) ==> forall|i: int|
            0 <= i < tasks@.len() ==> (#[trigger] tasks@[i]).deadline <= spec_run_bound(*param),
        r is Err ==> r == Err::<Vec<ProbeTask>, PingFault>(PingFault::InvalidRequest),
{
    if param.expire == 0 {
        return Err(PingFault::InvalidRequest);
    }
    let count = param.count;
    let delay = param.delay;
    let expire = param.expire;
    let mut tasks: Vec<ProbeTask> = Vec::new();
    let mut offset: u64 = 0;
    let mut i: usize = 0;
    while i < count
        invariant
            count == param.count,
            delay == param.delay,
            expire == param.expire,
            param.expire > 0,
            i <= count,
            i < count ==> offset == i * param.delay,
            tasks@.len() == i,
            forall|j: int| 0 <= j < i ==> (#[trigger] tasks@[j]).sequence == j,
            forall|j: int| 0 <= j < i ==> (#[trigger] tasks@[j]).start_offset == j * param.delay,
            forall|j: int|
                0 <= j < i ==> (#[trigger] tasks@[j]).deadline == j * param.delay + param.expire,
        decreases count - i,
    {
        if offset > u64::MAX - expire {
            proof {
                lemma_mul_inequality(i as int, count - 1, delay as int);
            }
            return Err(PingFault::InvalidRequest);
        }
        let deadline = offset + expire;
        tasks.push(ProbeTask { sequence: i, start_offset: offset, deadline });
        i = i + 1;
        proof {
            assert((i - 1) * param.delay + param.delay == i * param.delay) by (nonlinear_arith);
        }
        if i < count {
            if offset > u64::MAX - delay {
                proof {
                    lemma_mul_inequality(i as int, count - 1, delay as int);
                }
                return Err(PingFault::InvalidRequest);
            }
            offset = offset + delay;
        }
    }
    proof {
        if count > 0 {
            // the last pushed deadline is a u64 value, so the whole
            // stagger range fits and the request was valid
            assert(tasks@[count - 1].deadline == (count - 1) * param.delay + param.expire);
        }
        assert forall|k: int| 0 <= k < tasks@.len() implies (#[trigger] tasks@[k]).deadline
            <= spec_run_bound(*param) by {
            lemma_mul_inequality(k, count - 1, delay as int);
        }
    }
    Ok(tasks)
}

/// The run's wall-clock bound in milliseconds, as a value: the last probe's
/// deadline, or zero for an empty run.
pub fn run_duration_bound(param: &PingParam) -> (r: u64)
    requires
        param.valid(),
    ensures
        r == spec_run_bound(*param),
{
    if param.count == 0 {
        return 0;
    }
    let c: u64 = (param.count - 1) as u64;
    c * param.delay + param.expire
}

} // verus!
