//! Staggered probe scheduling and result aggregation.
//!
//! A run issues `count` echo probes toward one target: probe `sequence`
//! launches `sequence * delay` milliseconds after the run starts and must
//! have replied `expire` milliseconds later or be recorded as timed out.
//! Probes complete in arbitrary order; the aggregator restores sequence
//! order and reports one outcome per probe, isolating each probe's fault
//! from its siblings. The engine that actually sends and receives echo
//! packets is an external collaborator: it hands back plain reply data,
//! which [`outcome::classify`] turns into a [`outcome::ProbeOutcome`].

pub mod aggregate;
pub mod outcome;
pub mod request;
pub mod schedule;

pub use aggregate::Aggregator;
pub use outcome::{PingResult, ProbeOutcome, SequencedOutcome};
pub use request::{IpAddress, PingFault, PingParam};
pub use schedule::ProbeTask;
