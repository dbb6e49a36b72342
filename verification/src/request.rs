//! Run parameters: the target address, how many probes to send, and the
//! stagger and expiry that bound each probe's lifetime.

use vstd::prelude::*;

verus! {

/// A target address, held as plain packed values: IPv4 as the big-endian
/// 32-bit word, IPv6 as the big-endian 128-bit word.
#[derive(Clone, Copy, Debug, PartialEq, Eq, Structural)]
pub enum IpAddress {
    V4(u32),
    V6(u128),
}

impl IpAddress {
    /// Packs four dotted-quad octets into the 32-bit IPv4 form.
    pub fn v4(a: u8, b: u8, c: u8, d: u8) -> (r: IpAddress)
        ensures
            r == IpAddress::V4(
                ((a as u32) * 0x100_0000 + (b as u32) * 0x1_0000 + (c as u32) * 0x100
                    + (d as u32)) as u32,
            ),
    {
        IpAddress::V4(
            (a as u32) * 0x100_0000 + (b as u32) * 0x1_0000 + (c as u32) * 0x100 + (d as u32),
        )
    }
}

/// One run's parameters, immutable once submitted. Durations are in
/// milliseconds.
#[derive(Clone, Copy, Debug, PartialEq, Eq, Structural)]
pub struct PingParam {
    /// The probed target.
    pub addr: IpAddress,
    /// How many probes the run launches; zero yields an empty result.
    pub count: usize,
    /// Wait between consecutive probe launches: probe `i` starts
    /// `i * delay` milliseconds into the run.
    pub delay: u64,
    /// Per-probe reply deadline, measured from that probe's own launch;
    /// must be positive.
    pub expire: u64,
}

impl PingParam {
    /// Every probe's deadline stays within the 64-bit millisecond range.
    pub open spec fn offsets_fit(self) -> bool {
        self.count == 0 || (self.count - 1) * self.delay + self.expire <= u64::MAX
    }

    /// A request the scheduler accepts: a positive per-probe expiry, and
    /// stagger offsets and deadlines that the millisecond range can hold.
    pub open spec fn valid(self) -> bool {
        self.expire > 0 && self.offsets_fit()
    }
}

/// Why a run failed as a whole. Individual probe failures are never one of
/// these: they are recorded as data in the result.
#[derive(Clone, Copy, Debug, PartialEq, Eq, Structural)]
pub enum PingFault {
    /// The request is unusable: a zero expiry, or deadlines past the
    /// representable millisecond range.
    InvalidRequest,
    /// An outcome arrived for an unknown sequence, or twice for one
    /// sequence: the run's bookkeeping is corrupt.
    OutcomeConflict,
    /// Some launched probe never reported an outcome, so a complete
    /// sequence-ordered result cannot be built.
    OutcomeMissing,
}

} // verus!
