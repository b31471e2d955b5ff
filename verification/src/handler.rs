//! The way into the overseer: events are handed in here, and the client's notifications are
//! forwarded.

use vstd::prelude::*;

use crate::event::{Event, ExternalRequest};
use crate::listeners::Listener;
use crate::primitives::{BlockHash, BlockImportNotification, BlockInfo, FinalityNotification};
use crate::subsystems::AllMessages;

verus! {

/// Events on their way to the overseer, oldest first.
pub struct OverseerHandler<P> {
    /// The events that have not been picked up yet.
    pub outbox: Vec<Event<P>>,
}

/// A handler used to communicate with the overseer.
///
/// `P` is the payload of a message to a subsystem.
pub struct Handler<P>(pub OverseerHandler<P>);

impl<P> View for Handler<P> {
    type V = Seq<Event<P>>;

    /// The events that have not been picked up yet, oldest first.
    open spec fn view(&self) -> Seq<Event<P>> {
        self.0.outbox@
    }
}

impl<P> Handler<P> {
    /// A handler with nothing on its way.
    pub fn new() -> (handler: Self)
        ensures
            handler@ == Seq::<Event<P>>::empty(),
    {
        Handler(OverseerHandler { outbox: Vec::new() })
    }

    /// Inform the overseer that some block was imported.
    pub fn block_imported(&mut self, block: BlockInfo)
        ensures
            final(self)@ == old(self)@.push(Event::BlockImported(block)),
    {
        self.send(Event::BlockImported(block))
    }

    /// Send some message to one of the subsystems.
    pub fn send_msg(&mut self, msg: AllMessages<P>)
        ensures
            final(self)@ == old(self)@.push(Event::MsgToSubsystem(msg)),
    {
        self.send(Event::MsgToSubsystem(msg))
    }

    /// Inform the overseer that some block was finalized.
    pub fn block_finalized(&mut self, block: BlockInfo)
        ensures
            final(self)@ == old(self)@.push(Event::BlockFinalized(block)),
    {
        self.send(Event::BlockFinalized(block))
    }

    /// Wait for a block with the given hash to be in the active-leaves set.
    ///
    /// The response channel responds if the hash was activated and is closed if the hash was
    /// deactivated. Note that due to the fact that the overseer doesn't store the whole
    /// active-leaves set, only deltas, the response channel may never return if the hash was
    /// deactivated before this call. In this case, it's the caller's responsibility to ensure
    /// a timeout is set.
    pub fn wait_for_activation(&mut self, hash: BlockHash, response_channel: Listener)
        ensures
            final(self)@ == old(self)@.push(
                Event::ExternalRequest(
                    ExternalRequest::WaitForActivation { hash, response_channel },
                ),
            ),
    {
        self.send(
            Event::ExternalRequest(ExternalRequest::WaitForActivation { hash, response_channel }),
        )
    }

    /// Tell the overseer to shut down.
    pub fn stop(&mut self)
        ensures
            final(self)@ == old(self)@.push(Event::Stop),
    {
        self.send(Event::Stop)
    }

    /// Puts an event on its way.
    fn send(&mut self, event: Event<P>)
        ensures
            final(self)@ == old(self)@.push(event),
    {
        self.0.outbox.push(event);
    }

    /// Picks up all events that are on their way, oldest first.
    pub fn take(&mut self) -> (events: Vec<Event<P>>)
        ensures
            events@ == old(self)@,
            final(self)@ == Seq::<Event<P>>::empty(),
    {
        let mut events: Vec<Event<P>> = Vec::new();
        std::mem::swap(&mut events, &mut self.0.outbox);
        events
    }
}

/// What the client's two streams of notifications have to offer. `None` means that the stream
/// has ended.
pub enum ClientNotification {
    /// From the stream of finality notifications.
    Finality(Option<FinalityNotification>),
    /// From the stream of import notifications.
    Import(Option<BlockImportNotification>),
    /// Both streams have ended.
    Complete,
}

/// Whether forwarding goes on.
#[derive(Clone, Copy, Debug, PartialEq, Eq, Structural)]
pub enum Forwarding {
    /// Wait for the next notification.
    Continue,
    /// No more is forwarded.
    Ended,
}

/// The event that a notification becomes. The end of a stream becomes none.
pub open spec fn forwarded<P>(notification: ClientNotification) -> Option<Event<P>> {
    match notification {
        ClientNotification::Finality(Some(n)) => Some(
            Event::BlockFinalized(
                BlockInfo {
                    hash: n.hash,
                    parent_hash: n.header.parent_hash,
                    number: n.header.number,
                },
            ),
        ),
        ClientNotification::Import(Some(n)) => Some(
            Event::BlockImported(
                BlockInfo {
                    hash: n.hash,
                    parent_hash: n.header.parent_hash,
                    number: n.header.number,
                },
            ),
        ),
        _ => None,
    }
}

/// The events that a run of notifications becomes: those before the first end of a stream.
pub open spec fn forwarded_run<P>(notifications: Seq<ClientNotification>) -> Seq<Event<P>>
    decreases notifications.len(),
{
    if notifications.len() == 0 {
        Seq::empty()
    } else {
        match forwarded::<P>(notifications[0]) {
            Some(event) => seq![event] + forwarded_run::<P>(notifications.drop_first()),
            None => Seq::empty(),
        }
    }
}

/// Glues together the overseer and the client by forwarding one import or finality notification
/// into the handler. Forwarding ends with either stream.
pub fn forward_event<P>(handler: &mut Handler<P>, notification: ClientNotification) -> (next:
    Forwarding)
    ensures
        match forwarded::<P>(notification) {
            Some(event) => final(handler)@ == old(handler)@.push(event) && next
                == Forwarding::Continue,
            None => final(handler)@ == old(handler)@ && next == Forwarding::Ended,
        },
        next == Forwarding::Ended <==> (notification matches ClientNotification::Finality(None)
            || notification matches ClientNotification::Import(None)
            || notification is Complete),
{
    match notification {
        ClientNotification::Finality(Some(block)) => {
            handler.block_finalized(BlockInfo::from(block));
            Forwarding::Continue
        },
        ClientNotification::Import(Some(block)) => {
            handler.block_imported(BlockInfo::from(block));
            Forwarding::Continue
        },
        ClientNotification::Finality(None)
        | ClientNotification::Import(None)
        | ClientNotification::Complete => Forwarding::Ended,
    }
}

/// Forwards a run of notifications, in order, up to the first end of a stream.
pub fn forward_events<P>(handler: &mut Handler<P>, notifications: Vec<ClientNotification>) -> (next:
    Forwarding)
    ensures
        final(handler)@ == old(handler)@ + forwarded_run::<P>(notifications@),
        next == Forwarding::Continue <==> forall|i: int|
            0 <= i < notifications@.len() ==> forwarded::<P>(#[trigger] notifications@[i]) is Some,
{
    let ghost all = notifications@;
    assert(all.skip(0) =~= all);
    for notification in iter: notifications
        invariant
            iter.seq() == all,
            old(handler)@ + forwarded_run::<P>(all) == handler@ + forwarded_run::<P>(
                all.skip(iter.index()),
            ),
            forall|i: int|
                0 <= i < iter.index() ==> forwarded::<P>(#[trigger] all[i]) is Some,
    {
        let ghost at = iter.index();
        let ghost sent = handler@;
        assert(notification == all[at]);
        assert(all.skip(at).drop_first() =~= all.skip(at + 1));
        let next = forward_event(handler, notification);
        if next == Forwarding::Ended {
            assert(handler@ =~= sent + forwarded_run::<P>(all.skip(at)));
            return Forwarding::Ended;
        }
        assert(sent + forwarded_run::<P>(all.skip(at)) =~= handler@ + forwarded_run::<P>(
            all.skip(at + 1),
        ));
    }
    assert(handler@ + forwarded_run::<P>(all.skip(all.len() as int)) =~= handler@);
    Forwarding::Continue
}

} // verus!
