//! Terminal classification of each probe, and the caller-facing rendering
//! of a finished run.

use vstd::prelude::*;

verus! {

/// The terminal classification of one probe. Produced exactly once per
/// probe; a transport fault is data here, never a run-level failure.
#[derive(Clone, Copy, Debug, PartialEq, Eq, Structural)]
pub enum ProbeOutcome {
    /// A reply arrived this many milliseconds after the probe launched.
    Replied(u128),
    /// No reply arrived before the probe's deadline.
    TimedOut,
    /// The engine could not send or receive this probe's packets.
    TransportError,
}

impl ProbeOutcome {
    /// The caller-facing reply time: transport faults carry no reply time
    /// and are reported like timeouts.
    pub open spec fn spec_reply_time(self) -> Option<u128> {
        match self {
            ProbeOutcome::Replied(t) => Some(t),
            ProbeOutcome::TimedOut => None,
            ProbeOutcome::TransportError => None,
        }
    }

    /// Renders this outcome as its caller-facing reply time.
    pub fn reply_time(self) -> (r: Option<u128>)
        ensures
            r == self.spec_reply_time(),
    {
        match self {
            ProbeOutcome::Replied(t) => Some(t),
            ProbeOutcome::TimedOut => None,
            ProbeOutcome::TransportError => None,
        }
    }
}

/// Classifies what one engine call produced: `Ok(Some(t))` is a reply after
/// `t` milliseconds, `Ok(None)` is an explicit no-reply before the deadline,
/// and any engine-level fault becomes `TransportError` — recorded as data so
/// that it cannot abort sibling probes or the run.
pub fn classify<E>(engine_result: Result<Option<u128>, E>) -> (r: ProbeOutcome)
    ensures
        r == (match engine_result {
            Ok(Some(t)) => ProbeOutcome::Replied(t),
            Ok(None) => ProbeOutcome::TimedOut,
            Err(_) => ProbeOutcome::TransportError,
        }),
{
    match engine_result {
        Ok(Some(t)) => ProbeOutcome::Replied(t),
        Ok(None) => ProbeOutcome::TimedOut,
        Err(_) => ProbeOutcome::TransportError,
    }
}

/// One probe's outcome tagged with the sequence number that identifies it.
#[derive(Clone, Copy, Debug, PartialEq, Eq, Structural)]
pub struct SequencedOutcome {
    /// The probe's position in the run, in `0..count`.
    pub sequence: usize,
    /// What terminally happened to that probe.
    pub outcome: ProbeOutcome,
}

/// The caller-facing result of a finished run: one `(sequence, reply time)`
/// pair per probe, ascending by sequence; `None` where no reply arrived.
#[derive(Clone, Debug)]
pub struct PingResult(pub Vec<(usize, Option<u128>)>);

/// Renders a sequence-ordered run as the caller-facing pairs, keeping order
/// and length.
pub fn render(outcomes: &Vec<SequencedOutcome>) -> (r: PingResult)
    ensures
        r.0@.len() == outcomes@.len(),
        forall|i: int|
            0 <= i < outcomes@.len() ==> r.0@[i] == (
            outcomes@[i].sequence,
            outcomes@[i].outcome.spec_reply_time(),
            ),
{
    let mut pairs: Vec<(usize, Option<u128>)> = Vec::new();
    let mut i: usize = 0;
    while i < outcomes.len()
        invariant
            i <= outcomes@.len(),
            pairs@.len() == i,
            forall|j: int|
                0 <= j < i ==> pairs@[j] == (
                outcomes@[j].sequence,
                outcomes@[j].outcome.spec_reply_time(),
                ),
        decreases outcomes@.len() - i,
    {
        let so = outcomes[i];
        pairs.push((so.sequence, so.outcome.reply_time()));
        i = i + 1;
    }
    PingResult(pairs)
}

} // verus!
