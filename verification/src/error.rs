//! The errors that subsystems and the overseer report.

use vstd::prelude::*;

verus! {

/// What can go wrong in a subsystem or between a subsystem and the overseer.
#[derive(Debug, PartialEq, Eq)]
pub enum SubsystemError {
    /// A subsystem's queue is closed or full.
    QueueError,
    /// Metrics could not be registered.
    Prometheus(String),
    /// A failure with a description.
    Context(String),
    /// A failure with the name of the subsystem that it came from.
    FromOrigin {
        /// The subsystem.
        origin: &'static str,
        /// The description of the failure.
        source: String,
    },
}

/// The result of something a subsystem or the overseer did.
pub type SubsystemResult<T> = Result<T, SubsystemError>;

} // verus!
