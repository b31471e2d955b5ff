//! The overseer's main loop, one turn at a time.

use vstd::prelude::*;

use crate::dispatch::SubSysField;
use crate::error::SubsystemResult;
use crate::event::{Event, ExternalRequest, ToOverseer};
use crate::listeners::{answered, sequences};
use crate::overseer::{
    finality_outcome, import_outcome, HeadSupportsParachains, Overseer, Reaction,
};
use crate::signal::{signals_of, OverseerSignal};
use crate::subsystems::{AllMessages, MessageKind};

verus! {

/// How long the subsystems are given to finish when the overseer stops, in seconds.
pub const STOP_TIMEOUT_SECS: u64 = 1;

/// What the loop was woken by. Each source of wake-ups may have nothing to offer.
pub enum Wakeup<P, J> {
    /// An event from outside.
    Event(Option<Event<P>>),
    /// A request of a subsystem.
    ToOverseer(Option<ToOverseer<J>>),
    /// A subsystem has finished, with the result given.
    Finished(Option<SubsystemResult<()>>),
}

/// What is to be done before the loop waits again.
pub enum Turn<P, J> {
    /// Nothing.
    Continue,
    /// Drop the listeners who are given up, which closes their channels, and broadcast the
    /// signals, in order. The loop ends with the error if a broadcast fails.
    React(Reaction),
    /// Route the message to its subsystem. The loop ends with the error if that fails.
    RouteMessage(AllMessages<P>),
    /// Spawn the job.
    SpawnJob {
        /// Name of the job.
        name: &'static str,
        /// The job.
        s: J,
    },
    /// Spawn the job on the pool for jobs that block.
    SpawnBlockingJob {
        /// Name of the job.
        name: &'static str,
        /// The job.
        s: J,
    },
    /// Send the signal to the subsystems, wait for them to finish for no longer than the
    /// timeout, and end the loop with the result, however that went.
    Stop {
        /// The signal.
        signal: OverseerSignal,
        /// The timeout in seconds.
        timeout_secs: u64,
        /// The result of the loop.
        result: SubsystemResult<()>,
    },
}

/// The turn that ends the loop with the given result.
pub open spec fn stop_turn<P, J>(result: SubsystemResult<()>) -> Turn<P, J> {
    Turn::Stop { signal: OverseerSignal::Conclude, timeout_secs: STOP_TIMEOUT_SECS, result }
}

/// The job by which a subsystem is started as it was declared: on the pool for jobs that block if
/// the subsystem blocks. `s` is the subsystem's work.
pub fn start_subsystem<J>(field: &SubSysField<&'static str, MessageKind>, s: J) -> (job: ToOverseer<
    J,
>)
    ensures
        job == (if field.blocking {
            ToOverseer::SpawnBlockingJob { name: field.name, s }
        } else {
            ToOverseer::SpawnJob { name: field.name, s }
        }),
{
    if field.blocking {
        ToOverseer::SpawnBlockingJob { name: field.name, s }
    } else {
        ToOverseer::SpawnJob { name: field.name, s }
    }
}

/// How the loop goes on after it has done something that can fail.
pub enum Progress {
    /// Wait for the next wake-up.
    Wait,
    /// Broadcast the signal; the others come after it.
    Broadcast(OverseerSignal, Vec<OverseerSignal>),
    /// End the loop with the result.
    Return(SubsystemResult<()>),
}

/// How the loop goes on, given the outcome of what it did last and the signals that are still
/// to be broadcast: the first failure ends the loop, and what was still to be broadcast is not.
pub fn progress(outcome: SubsystemResult<()>, rest: Vec<OverseerSignal>) -> (next: Progress)
    ensures
        match next {
            Progress::Wait => outcome is Ok && rest@.len() == 0,
            Progress::Broadcast(signal, later) => outcome is Ok && rest@ == seq![signal] + later@,
            Progress::Return(result) => outcome is Err && result == outcome,
        },
{
    if outcome.is_err() {
        return Progress::Return(outcome);
    }
    let mut later = rest;
    if later.is_empty() {
        return Progress::Wait;
    }
    let signal = later.remove(0);
    assert(rest@ =~= seq![signal] + later@);
    Progress::Broadcast(signal, later)
}

impl<SupportsParachains> Overseer<SupportsParachains> {
    /// Stops the overseer: the subsystems are told to conclude.
    pub fn stop<P, J>(&self, result: SubsystemResult<()>) -> (turn: Turn<P, J>)
        ensures
            turn == stop_turn::<P, J>(result),
            turn matches Turn::Stop { signal, timeout_secs, result: ended } && ended == result
                && signal is Conclude && timeout_secs == 1,
    {
        Turn::Stop { signal: OverseerSignal::Conclude, timeout_secs: STOP_TIMEOUT_SECS, result }
    }

    /// Hands a job to the spawner.
    pub fn spawn_job<P, J>(&self, name: &'static str, s: J) -> (turn: Turn<P, J>)
        ensures
            turn == (Turn::<P, J>::SpawnJob { name, s }),
    {
        Turn::SpawnJob { name, s }
    }

    /// Hands a job that blocks to the spawner.
    pub fn spawn_blocking_job<P, J>(&self, name: &'static str, s: J) -> (turn: Turn<P, J>)
        ensures
            turn == (Turn::<P, J>::SpawnBlockingJob { name, s }),
    {
        Turn::SpawnBlockingJob { name, s }
    }
}

impl<SupportsParachains: HeadSupportsParachains> Overseer<SupportsParachains> {
    /// One turn of the main loop: reacts to what the loop was woken by and says what is to be
    /// done about it.
    ///
    /// An imported block must agree with the leaves that are known; `import_agrees` tells.
    pub fn turn<P, J>(&mut self, wakeup: Wakeup<P, J>) -> (turn: Turn<P, J>)
        requires
            wakeup matches Wakeup::Event(Some(Event::BlockImported(block)))
                ==> old(self)@.import_agrees(block),
        ensures
            match wakeup {
                Wakeup::Event(Some(Event::BlockImported(block))) => {
                    &&& turn matches Turn::React(reaction)
                    &&& import_outcome(
                        old(self).checker(),
                        old(self)@,
                        block,
                        final(self)@,
                        signals_of(reaction.signals@),
                        sequences(reaction.closed@),
                    )
                },
                Wakeup::Event(Some(Event::BlockFinalized(block))) => {
                    &&& turn matches Turn::React(reaction)
                    &&& finality_outcome(
                        old(self)@,
                        block,
                        final(self)@,
                        signals_of(reaction.signals@),
                        sequences(reaction.closed@),
                    )
                },
                Wakeup::Event(Some(Event::ExternalRequest(request))) => {
                    let ExternalRequest::WaitForActivation { hash, response_channel } = request;
                    &&& turn is Continue
                    &&& final(self)@ == old(self)@.requested(hash, response_channel)
                    &&& old(self)@.is_active(hash) ==> answered(response_channel)
                },
                Wakeup::Event(Some(Event::MsgToSubsystem(msg))) => {
                    &&& turn == Turn::<P, J>::RouteMessage(msg)
                    &&& final(self)@ == old(self)@
                },
                Wakeup::Event(Some(Event::Stop)) => {
                    &&& turn == stop_turn::<P, J>(Ok(()))
                    &&& turn matches Turn::Stop { signal, timeout_secs, result }
                    &&& result is Ok
                    &&& signal is Conclude
                    &&& timeout_secs == 1
                    &&& final(self)@ == old(self)@
                },
                Wakeup::ToOverseer(Some(ToOverseer::SpawnJob { name, s })) => {
                    &&& turn == (Turn::<P, J>::SpawnJob { name, s })
                    &&& final(self)@ == old(self)@
                },
                Wakeup::ToOverseer(Some(ToOverseer::SpawnBlockingJob { name, s })) => {
                    &&& turn == (Turn::<P, J>::SpawnBlockingJob { name, s })
                    &&& final(self)@ == old(self)@
                },
                Wakeup::Finished(Some(result)) => {
                    &&& turn == stop_turn::<P, J>(result)
                    &&& turn matches Turn::Stop { signal, timeout_secs, result: ended }
                    &&& ended == result
                    &&& signal is Conclude
                    &&& timeout_secs == 1
                    &&& final(self)@ == old(self)@
                },
                Wakeup::Event(None) | Wakeup::ToOverseer(None) | Wakeup::Finished(None) => {
                    &&& turn is Continue
                    &&& final(self)@ == old(self)@
                },
            },
            old(self)@.well_formed() ==> final(self)@.well_formed(),
            final(self).checker() == old(self).checker(),
    {
        match wakeup {
            Wakeup::Event(Some(event)) => match event {
                Event::MsgToSubsystem(msg) => Turn::RouteMessage(msg),
                Event::Stop => self.stop(Ok(())),
                Event::BlockImported(block) => Turn::React(self.block_imported(block)),
                Event::BlockFinalized(block) => Turn::React(self.block_finalized(block)),
                Event::ExternalRequest(request) => {
                    self.handle_external_request(request);
                    Turn::Continue
                },
            },
            Wakeup::ToOverseer(Some(request)) => match request {
                ToOverseer::SpawnJob { name, s } => self.spawn_job(name, s),
                ToOverseer::SpawnBlockingJob { name, s } => self.spawn_blocking_job(name, s),
            },
            // Unexpected: subsystems run until they are told to conclude.
            Wakeup::Finished(Some(result)) => self.stop(result),
            Wakeup::Event(None) | Wakeup::ToOverseer(None) | Wakeup::Finished(None) => {
                Turn::Continue
            },
        }
    }
}

} // verus!
