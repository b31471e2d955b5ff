//! What reaches the overseer from outside and from the subsystems.

use vstd::prelude::*;

use crate::listeners::Listener;
use crate::primitives::{BlockHash, BlockInfo};
use crate::subsystems::AllMessages;

verus! {

/// Some request from the outer world.
pub enum ExternalRequest {
    /// Wait for the activation of a particular hash and be notified by means of the return
    /// channel.
    WaitForActivation {
        /// The relay parent for which activation to wait for.
        hash: BlockHash,
        /// Response channel to await on.
        response_channel: Listener,
    },
}

/// An event from outside the overseer's scope, such as the chain client or user interaction.
///
/// `P` is the payload of a message to a subsystem.
pub enum Event<P> {
    /// A new block was imported.
    BlockImported(BlockInfo),
    /// A block was finalized by some consensus algorithm.
    BlockFinalized(BlockInfo),
    /// An explicit message to a subsystem.
    MsgToSubsystem(AllMessages<P>),
    /// An external request, see the inner type for details.
    ExternalRequest(ExternalRequest),
    /// Stop the overseer on, say, a UNIX signal.
    Stop,
}

/// What a subsystem asks of the overseer. `J` is the job.
pub enum ToOverseer<J> {
    /// Spawn a task.
    SpawnJob {
        /// Name of the task.
        name: &'static str,
        /// The task.
        s: J,
    },
    /// Spawn a task on the pool for tasks that block.
    SpawnBlockingJob {
        /// Name of the task.
        name: &'static str,
        /// The task.
        s: J,
    },
}

} // verus!
