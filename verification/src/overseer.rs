//! The overseer: it keeps the set of active leaves and reacts to what happens on the chain.

use vstd::prelude::*;

use crate::event::ExternalRequest;
use crate::leaf_map::LeafMap;
use crate::listeners::{
    answer, answer_all, answered, only_canceled, part_canceled, poll_canceled, reports, sequences,
    Listener,
};
use crate::metrics::Metrics;
use crate::primitives::{BlockHash, BlockInfo, BlockNumber};
use crate::signal::{
    broadcast_update, signals_of, update_signals, ActivatedLeaf, ActiveLeavesUpdate,
    OverseerSignal, SignalView, Span, UpdateView, LEAF_ACTIVATED,
};
use crate::state::{supported_at, OverseerState};

verus! {

/// Whether a header supports parachain consensus or not.
pub trait HeadSupportsParachains {
    /// Return true if the given header supports parachain consensus. Otherwise, false.
    fn head_supports_parachains(&self, head: &BlockHash) -> (supported: bool);
}

/// `supported` is what the checker said of `head`.
pub open spec fn said<C: HeadSupportsParachains>(
    checker: C,
    head: BlockHash,
    supported: bool,
) -> bool {
    call_ensures(C::head_supports_parachains, (&checker, &head), supported)
}

/// A runtime that cannot tell whether it has the parachains API counts as one without it.
pub fn has_api_or_false<E>(has_api: Result<bool, E>) -> (supported: bool)
    ensures
        supported == (has_api matches Ok(b) && b),
{
    match has_api {
        Ok(b) => b,
        Err(_) => false,
    }
}

/// Every listener in the list has been answered.
pub open spec fn all_answered(listeners: Seq<Listener>) -> bool {
    forall|i: int| 0 <= i < listeners.len() ==> answered(#[trigger] listeners[i])
}

/// What the import of a block comes to.
///
/// An active leaf that is imported again changes nothing and nothing is broadcast. Otherwise the
/// checker is asked about the block, every listener that is still there afterwards is asked
/// whether it has gone, and the answers decide: the state is that of the import without the
/// listeners who have gone, the listeners of the block have been answered if it is supported,
/// and the change of the set of active leaves is broadcast unless there is none. The listeners of
/// a parent that is deactivated, and those who have gone, are handed back unanswered in `closed`.
pub open spec fn import_outcome<C: HeadSupportsParachains>(
    checker: C,
    before: OverseerState,
    block: BlockInfo,
    after: OverseerState,
    signals: Seq<SignalView>,
    closed: Map<BlockHash, Seq<Listener>>,
) -> bool {
    if before.is_active(block.hash) {
        &&& after == before
        &&& signals == Seq::<SignalView>::empty()
        &&& closed == Map::<BlockHash, Seq<Listener>>::empty()
    } else {
        exists|supported: bool, canceled: Map<BlockHash, Seq<bool>>|
            {
                &&& said(checker, block.hash, supported)
                &&& #[trigger] reports(before.imported(block, supported).listeners, canceled)
                &&& after == before.imported(block, supported).cleaned_up(canceled)
                &&& signals == update_signals(before.import_update(block, supported))
                &&& all_answered(before.import_answers(block, supported))
                &&& closed == before.import_given_up(block, supported, canceled)
            }
    }
}

/// What the finality of a block comes to.
///
/// The leaves that are not above it are gone. The block is broadcast first; if leaves are gone,
/// they are broadcast next, each once and in no particular order. Their listeners are handed back
/// unanswered in `closed`.
pub open spec fn finality_outcome(
    before: OverseerState,
    block: BlockInfo,
    after: OverseerState,
    signals: Seq<SignalView>,
    closed: Map<BlockHash, Seq<Listener>>,
) -> bool {
    &&& after == before.finalized(block.number)
    &&& closed == before.finality_closed(block.number)
    &&& exists|gone: Seq<BlockHash>|
        {
            &&& #[trigger] gone.no_duplicates()
            &&& gone.to_set() == before.leaves_up_to(block.number)
            &&& signals == seq![SignalView::BlockFinalized(block.hash, block.number)]
                + update_signals(UpdateView { activated: Seq::empty(), deactivated: gone })
        }
}

/// What the start comes to.
///
/// The checker is asked about each of the leaves to start with, and its answers decide on which
/// of them work starts. Those are broadcast unless there are none.
pub open spec fn start_outcome<C: HeadSupportsParachains>(
    checker: C,
    before: OverseerState,
    after: OverseerState,
    signals: Seq<SignalView>,
) -> bool {
    exists|supported: Seq<bool>|
        {
            &&& #[trigger] supported.len() == before.leaves.len()
            &&& forall|i: int|
                0 <= i < supported.len() ==> said(
                    checker,
                    (#[trigger] before.leaves[i]).0,
                    supported[i],
                )
            &&& after == before.started(supported)
            &&& signals == update_signals(before.start_update(supported))
            &&& forall|i: int|
                0 <= i < before.leaves.len() ==> all_answered(
                    #[trigger] before.start_answers(i, supported),
                )
        }
}

/// What is to be done about a block.
pub struct Reaction {
    /// The signals to broadcast, in order.
    pub signals: Vec<OverseerSignal>,
    /// The listeners who are given up, under the hashes they waited for. They have not been
    /// answered; to drop them closes their channels.
    pub closed: LeafMap<Vec<Listener>>,
}

/// The overseer.
pub struct Overseer<SupportsParachains> {
    /// External listeners waiting for a hash to be in the active-leaves set.
    activation_external_listeners: LeafMap<Vec<Listener>>,
    /// The span of each active leaf on which work has started.
    span_per_active_leaf: LeafMap<Span>,
    /// A set of leaves that the overseer starts working with.
    ///
    /// Drained at the start and never used again.
    pub leaves: Vec<(BlockHash, BlockNumber)>,
    /// The set of the active leaves.
    pub active_leaves: LeafMap<BlockNumber>,
    /// An implementation for checking whether a header supports parachain consensus.
    pub supports_parachains: SupportsParachains,
    /// Counts for monitoring.
    pub metrics: Metrics,
}

impl<SupportsParachains> View for Overseer<SupportsParachains> {
    type V = OverseerState;

    closed spec fn view(&self) -> OverseerState {
        OverseerState {
            leaves: self.leaves@,
            active_leaves: self.active_leaves@,
            spans: self.span_per_active_leaf@,
            listeners: sequences(self.activation_external_listeners@),
            metrics: self.metrics,
        }
    }
}

/// The leaves to start with, out of the blocks given.
pub open spec fn leaves_of(blocks: Seq<BlockInfo>) -> Seq<(BlockHash, BlockNumber)> {
    blocks.map_values(|b: BlockInfo| (b.hash, b.number))
}

/// Takes the leaves whose number is not above `number` out of the map and returns their hashes.
fn remove_up_to(leaves: &mut LeafMap<BlockNumber>, number: BlockNumber) -> (gone: Vec<BlockHash>)
    ensures
        gone@.no_duplicates(),
        forall|h: BlockHash| #[trigger]
            gone@.contains(h) <==> old(leaves)@.contains_key(h) && old(leaves)@[h] <= number,
        final(leaves)@ == old(leaves)@.remove_keys(gone@.to_set()),
{
    let mut gone: Vec<BlockHash> = Vec::new();
    let mut kept: LeafMap<BlockNumber> = LeafMap::new();
    let ghost all = leaves@;
    loop
        invariant
            gone@.no_duplicates(),
            forall|h: BlockHash| #[trigger]
                leaves@.contains_key(h) ==> all.contains_key(h) && all[h] == leaves@[h],
            forall|h: BlockHash| #[trigger]
                kept@.contains_key(h) <==> all.contains_key(h) && !leaves@.contains_key(h)
                    && all[h] > number,
            forall|h: BlockHash| #[trigger] kept@.contains_key(h) ==> kept@[h] == all[h],
            forall|h: BlockHash| #[trigger]
                gone@.contains(h) <==> all.contains_key(h) && !leaves@.contains_key(h) && all[h]
                    <= number,
        ensures
            leaves@ == Map::<BlockHash, BlockNumber>::empty(),
        decreases leaves.keys().len(),
    {
        match leaves.pop() {
            Some((hash, n)) => {
                if n <= number {
                    let ghost before = gone@;
                    gone.push(hash);
                    proof {
                        assert forall|h: BlockHash| #[trigger]
                            gone@.contains(h) <==> before.contains(h) || h == hash by {
                            if before.contains(h) {
                                let k = choose|k: int| 0 <= k < before.len() && before[k] == h;
                                assert(gone@[k] == h);
                            }
                            assert(gone@[before.len() as int] == hash);
                        }
                        assert(!before.contains(hash));
                    }
                } else {
                    kept.insert(hash, n);
                }
            },
            None => {
                break;
            },
        }
    }
    *leaves = kept;
    assert(leaves@ =~= all.remove_keys(gone@.to_set()));
    gone
}

impl<SupportsParachains> Overseer<SupportsParachains> {
    /// What tells whether a header supports parachain consensus.
    pub closed spec fn checker(self) -> SupportsParachains {
        self.supports_parachains
    }

    /// An overseer that has not started yet. It will start with the given blocks as leaves.
    pub fn new(leaves: Vec<BlockInfo>, supports_parachains: SupportsParachains) -> (overseer: Self)
        ensures
            overseer@ == (OverseerState {
                leaves: leaves_of(leaves@),
                active_leaves: Map::empty(),
                spans: Map::empty(),
                listeners: Map::empty(),
                metrics: Metrics { activated_heads_total: 0, deactivated_heads_total: 0 },
            }),
            overseer@.well_formed(),
            overseer.checker() == supports_parachains,
    {
        let mut pairs: Vec<(BlockHash, BlockNumber)> = Vec::new();
        let mut i: usize = 0;
        while i < leaves.len()
            invariant
                i <= leaves@.len(),
                pairs@ == leaves_of(leaves@).take(i as int),
            decreases leaves@.len() - i,
        {
            pairs.push((leaves[i].hash, leaves[i].number));
            i += 1;
            assert(leaves_of(leaves@).take(i as int) =~= leaves_of(leaves@).take(i - 1).push(
                leaves_of(leaves@)[i - 1],
            ));
        }
        assert(leaves_of(leaves@).take(i as int) =~= leaves_of(leaves@));
        let overseer = Overseer {
            activation_external_listeners: LeafMap::new(),
            span_per_active_leaf: LeafMap::new(),
            leaves: pairs,
            active_leaves: LeafMap::new(),
            supports_parachains,
            metrics: Metrics::new(),
        };
        assert(overseer@.listeners =~= Map::<BlockHash, Seq<Listener>>::empty());
        overseer
    }

    /// The leaves to start with.
    pub fn leaves(&self) -> (leaves: &Vec<(BlockHash, BlockNumber)>)
        ensures
            leaves@ == self@.leaves,
    {
        &self.leaves
    }

    /// The active leaves with their numbers.
    pub fn active_leaves(&self) -> (leaves: &LeafMap<BlockNumber>)
        ensures
            leaves@ == self@.active_leaves,
    {
        &self.active_leaves
    }

    /// Whether `hash` is an active leaf.
    pub fn is_active(&self, hash: &BlockHash) -> (active: bool)
        ensures
            active == self@.is_active(*hash),
            active == self@.active_leaves.contains_key(*hash),
    {
        self.active_leaves.contains_key(hash)
    }

    /// What tells whether a header supports parachain consensus.
    pub fn supports_parachains(&self) -> (checker: &SupportsParachains)
        ensures
            *checker == self.checker(),
    {
        &self.supports_parachains
    }

    /// What has been counted.
    pub fn metrics(&self) -> (metrics: &Metrics)
        ensures
            *metrics == self@.metrics,
    {
        &self.metrics
    }

    /// Handles the activation of a head of which it is known whether its state supports the
    /// parachains API. If it does not, nothing happens and this returns `None`.
    pub fn activate_head(
        &mut self,
        hash: &BlockHash,
        parent_hash: Option<BlockHash>,
        supported: bool,
    ) -> (span: Option<Span>)
        ensures
            final(self)@ == old(self)@.activated(*hash, parent_hash, supported),
            span == (if supported {
                Some(old(self)@.span_of(*hash, parent_hash))
            } else {
                None
            }),
            all_answered(old(self)@.activation_answers(*hash, supported)),
            final(self).checker() == old(self).checker(),
    {
        if !supported {
            return None;
        }
        self.metrics.on_head_activated();
        let ghost listeners = self.activation_external_listeners@;
        if let Some(waiting) = self.activation_external_listeners.remove(hash) {
            answer_all(waiting);
        }
        assert(sequences(listeners.remove(*hash)) =~= sequences(listeners).remove(*hash));
        let follows_from = match parent_hash {
            Some(p) => if self.span_per_active_leaf.contains_key(&p) {
                Some(p)
            } else {
                None
            },
            None => None,
        };
        let span = Span { hash: *hash, name: LEAF_ACTIVATED, follows_from };
        self.span_per_active_leaf.insert(*hash, span);
        Some(span)
    }

    /// Handles the deactivation of a head. Its listeners are handed back unanswered; to drop them
    /// closes their channels.
    pub fn on_head_deactivated(&mut self, hash: &BlockHash) -> (closed: Vec<Listener>)
        ensures
            final(self)@ == old(self)@.deactivated(*hash),
            closed@ == old(self)@.listeners_of(*hash),
            final(self).checker() == old(self).checker(),
    {
        self.metrics.on_head_deactivated();
        let ghost listeners = self.activation_external_listeners@;
        let closed = match self.activation_external_listeners.remove(hash) {
            Some(waiting) => waiting,
            None => Vec::new(),
        };
        assert(sequences(listeners.remove(*hash)) =~= sequences(listeners).remove(*hash));
        self.span_per_active_leaf.remove(hash);
        closed
    }

    /// Forgets the listeners that are marked in `canceled` and hands them back unanswered.
    pub fn remove_canceled_listeners(&mut self, canceled: &LeafMap<Vec<bool>>) -> (gone: LeafMap<
        Vec<Listener>,
    >)
        ensures
            final(self)@ == old(self)@.cleaned_up(sequences(canceled@)),
            sequences(gone@) == only_canceled(old(self)@.listeners, sequences(canceled@)),
            old(self)@.well_formed() ==> final(self)@.well_formed(),
            final(self).checker() == old(self).checker(),
    {
        let mut listeners: LeafMap<Vec<Listener>> = LeafMap::new();
        std::mem::swap(&mut listeners, &mut self.activation_external_listeners);
        let (kept, gone) = part_canceled(listeners, canceled);
        self.activation_external_listeners = kept;
        gone
    }

    /// Removes dead listeners, those who no longer wait for an answer, and hands them back
    /// unanswered.
    pub fn clean_up_external_listeners(&mut self) -> (gone: LeafMap<Vec<Listener>>)
        ensures
            exists|canceled: Map<BlockHash, Seq<bool>>|
                {
                    &&& #[trigger] reports(old(self)@.listeners, canceled)
                    &&& final(self)@ == old(self)@.cleaned_up(canceled)
                    &&& sequences(gone@) == only_canceled(old(self)@.listeners, canceled)
                },
            old(self)@.well_formed() ==> final(self)@.well_formed(),
            final(self).checker() == old(self).checker(),
    {
        let canceled = poll_canceled(&self.activation_external_listeners);
        self.remove_canceled_listeners(&canceled)
    }

    /// Handles a request from outside.
    pub fn handle_external_request(&mut self, request: ExternalRequest)
        ensures
            match request {
                ExternalRequest::WaitForActivation { hash, response_channel } => {
                    &&& final(self)@ == old(self)@.requested(hash, response_channel)
                    &&& old(self)@.is_active(hash) ==> answered(response_channel)
                },
            },
            old(self)@.well_formed() ==> final(self)@.well_formed(),
            final(self).checker() == old(self).checker(),
    {
        match request {
            ExternalRequest::WaitForActivation { hash, response_channel } => {
                if self.active_leaves.contains_key(&hash) {
                    // it's fine if the listener is no longer interested
                    answer(response_channel);
                } else {
                    let ghost before = self.activation_external_listeners@;
                    let mut waiting = match self.activation_external_listeners.remove(&hash) {
                        Some(waiting) => waiting,
                        None => Vec::new(),
                    };
                    waiting.push(response_channel);
                    self.activation_external_listeners.insert(hash, waiting);
                    assert(sequences(before.remove(hash).insert(hash, waiting)) =~= sequences(
                        before,
                    ).insert(hash, waiting@));
                }
            },
        }
    }

    /// Whether the import of `block` agrees with the leaves that are known: a leaf that is imported
    /// again has the number it had, and the parent, where it is an active leaf, has the number
    /// before the block's.
    pub fn import_agrees(&self, block: &BlockInfo) -> (agrees: bool)
        ensures
            agrees == self@.import_agrees(*block),
    {
        match self.active_leaves.get(&block.hash) {
            Some(number) => *number == block.number,
            None => {
                let expected = block.number.saturating_sub(1);
                if block.parent_hash == block.hash {
                    block.number == expected
                } else {
                    match self.active_leaves.get(&block.parent_hash) {
                        Some(number) => *number == expected,
                        None => true,
                    }
                }
            },
        }
    }

    /// Takes an imported block into the set of active leaves, given whether its head supports
    /// parachains. Returns what has changed in that set, and the listeners of a parent that is
    /// deactivated, unanswered.
    ///
    /// The block must agree with the leaves that are known; `import_agrees` tells.
    pub fn import_leaf(&mut self, block: BlockInfo, supported: bool) -> (out: (
        ActiveLeavesUpdate,
        Vec<Listener>,
    ))
        requires
            old(self)@.import_agrees(block),
        ensures
            final(self)@ == old(self)@.imported(block, supported),
            out.0@ == old(self)@.import_update(block, supported),
            out.1@ == old(self)@.import_closed(block, supported),
            forall|i: int|
                0 <= i < out.0.activated@.len() ==> {
                    &&& supported
                    &&& (#[trigger] out.0.activated@[i]).hash == block.hash
                    &&& out.0.activated@[i].number == block.number
                    &&& out.0.activated@[i].span.hash == block.hash
                },
            forall|i: int|
                0 <= i < out.0.deactivated@.len() ==> #[trigger] out.0.deactivated@[i]
                    == block.parent_hash,
            all_answered(old(self)@.import_answers(block, supported)),
            old(self)@.well_formed() ==> final(self)@.well_formed(),
            final(self).checker() == old(self).checker(),
    {
        if self.active_leaves.contains_key(&block.hash) {
            return (ActiveLeavesUpdate::default(), Vec::new());
        }
        self.active_leaves.insert(block.hash, block.number);
        let mut closed: Vec<Listener> = Vec::new();
        let mut update = match self.activate_head(&block.hash, Some(block.parent_hash), supported) {
            Some(span) => ActiveLeavesUpdate::start_work(
                ActivatedLeaf { hash: block.hash, number: block.number, span },
            ),
            None => ActiveLeavesUpdate::default(),
        };
        if self.active_leaves.remove(&block.parent_hash).is_some() {
            update.deactivated.push(block.parent_hash);
            closed = self.on_head_deactivated(&block.parent_hash);
        }
        assert(update@ =~= old(self)@.import_update(block, supported));
        assert(self@ =~= old(self)@.imported(block, supported));
        (update, closed)
    }

    /// Reacts to the finality of a block: drops every leaf that is not above it.
    ///
    /// If there are no leaves being deactivated, no update of the leaves is due: the peers
    /// learn of the finalized block the next time that some leaf is activated or deactivated.
    pub fn block_finalized(&mut self, block: BlockInfo) -> (reaction: Reaction)
        ensures
            finality_outcome(
                old(self)@,
                block,
                final(self)@,
                signals_of(reaction.signals@),
                sequences(reaction.closed@),
            ),
            old(self)@.well_formed() ==> final(self)@.well_formed(),
            final(self).checker() == old(self).checker(),
    {
        let gone = remove_up_to(&mut self.active_leaves, block.number);
        let ghost mid = self@;
        proof {
            assert(gone@.to_set() =~= old(self)@.leaves_up_to(block.number));
            gone@.unique_seq_to_set();
            assert(mid.spans.remove_keys(gone@.take(0).to_set()) =~= mid.spans);
            assert(mid.listeners.remove_keys(gone@.take(0).to_set()) =~= mid.listeners);
        }
        let mut closed: LeafMap<Vec<Listener>> = LeafMap::new();
        let mut i: usize = 0;
        while i < gone.len()
            invariant
                i <= gone@.len(),
                gone@.no_duplicates(),
                forall|h: BlockHash| #[trigger]
                    closed@.contains_key(h) <==> gone@.take(i as int).contains(h)
                        && mid.listeners_of(h).len() > 0,
                forall|h: BlockHash| #[trigger]
                    closed@.contains_key(h) ==> closed@[h]@ == mid.listeners_of(h),
                self@ == (OverseerState {
                    spans: mid.spans.remove_keys(gone@.take(i as int).to_set()),
                    listeners: mid.listeners.remove_keys(gone@.take(i as int).to_set()),
                    metrics: mid.metrics.deactivated(i as nat),
                    ..mid
                }),
                self.supports_parachains == old(self).supports_parachains,
            decreases gone@.len() - i,
        {
            let ghost seen = gone@.take(i as int);
            let ghost next = gone@.take(i + 1);
            proof {
                assert(next =~= seen.push(gone@[i as int]));
                lemma_push_to_set(seen, gone@[i as int]);
                assert(mid.spans.remove_keys(seen.to_set()).remove(gone@[i as int])
                    =~= mid.spans.remove_keys(next.to_set()));
                assert(mid.listeners.remove_keys(seen.to_set()).remove(gone@[i as int])
                    =~= mid.listeners.remove_keys(next.to_set()));
            }
            assert(!seen.contains(gone@[i as int]));
            assert(self@.listeners_of(gone@[i as int]) == mid.listeners_of(gone@[i as int]));
            let waiting = self.on_head_deactivated(&gone[i]);
            if !waiting.is_empty() {
                closed.insert(gone[i], waiting);
            }
            assert forall|h: BlockHash| next.contains(h) <==> seen.contains(h) || h
                == gone@[i as int] by {
                assert(next.to_set().contains(h) <==> next.contains(h));
                assert(seen.to_set().contains(h) <==> seen.contains(h));
            }
            i += 1;
        }
        assert(gone@.take(i as int) =~= gone@);
        assert(self@ =~= old(self)@.finalized(block.number));
        proof {
            assert forall|h: BlockHash| gone@.contains(h) <==> old(self)@.leaves_up_to(
                block.number,
            ).contains(h) by {
                assert(gone@.to_set().contains(h) <==> gone@.contains(h));
            }
            assert(sequences(closed@) =~= old(self)@.finality_closed(block.number));
        }
        let mut signals: Vec<OverseerSignal> = Vec::new();
        signals.push(OverseerSignal::BlockFinalized(block.hash, block.number));
        let ghost deactivated = gone@;
        let update = ActiveLeavesUpdate { activated: Vec::new(), deactivated: gone };
        let mut changes = broadcast_update(update);
        let ghost later = signals_of(changes@);
        signals.append(&mut changes);
        proof {
            assert(update@ =~= UpdateView { activated: Seq::empty(), deactivated });
            assert(signals_of(signals@) =~= seq![
                SignalView::BlockFinalized(block.hash, block.number),
            ] + later);
        }
        Reaction { signals, closed }
    }

    /// Takes up the leaves to start with, given for each of them whether its head supports
    /// parachains; one without an answer counts as not supported. Returns the signals to
    /// broadcast.
    pub fn start_leaves(&mut self, supported: &Vec<bool>) -> (signals: Vec<OverseerSignal>)
        ensures
            final(self)@ == old(self)@.started(supported@),
            signals_of(signals@) == update_signals(old(self)@.start_update(supported@)),
            forall|i: int|
                0 <= i < old(self)@.leaves.len() ==> all_answered(
                    #[trigger] old(self)@.start_answers(i, supported@),
                ),
            old(self)@.well_formed() ==> final(self)@.well_formed(),
            final(self).checker() == old(self).checker(),
    {
        let ghost start = self@;
        let mut update = ActiveLeavesUpdate::default();
        let mut leaves: Vec<(BlockHash, BlockNumber)> = Vec::new();
        std::mem::swap(&mut leaves, &mut self.leaves);
        let mut i: usize = 0;
        while i < leaves.len()
            invariant
                i <= leaves@.len(),
                start == old(self)@,
                leaves@ == start.leaves,
                self@ == start.started_up_to(i as int, supported@),
                update@ == (UpdateView {
                    activated: start.started_leaves(i as int, supported@),
                    deactivated: Seq::empty(),
                }),
                forall|j: int|
                    0 <= j < i ==> all_answered(#[trigger] start.start_answers(j, supported@)),
                start.well_formed() ==> self@.well_formed(),
                self.supports_parachains == old(self).supports_parachains,
            decreases leaves@.len() - i,
        {
            let (hash, number) = leaves[i];
            let head_supported = i < supported.len() && supported[i];
            self.active_leaves.insert(hash, number);
            if let Some(span) = self.activate_head(&hash, None, head_supported) {
                update.activated.push(ActivatedLeaf { hash, number, span });
            }
            i += 1;
        }
        broadcast_update(update)
    }
}

impl<SupportsParachains: HeadSupportsParachains> Overseer<SupportsParachains> {
    /// Handles a header activation. If the header's state doesn't support the parachains API,
    /// this returns `None`.
    pub fn on_head_activated(&mut self, hash: &BlockHash, parent_hash: Option<BlockHash>) -> (span:
        Option<Span>)
        ensures
            exists|supported: bool|
                {
                    &&& #[trigger] said(old(self).checker(), *hash, supported)
                    &&& final(self)@ == old(self)@.activated(*hash, parent_hash, supported)
                    &&& span == (if supported {
                        Some(old(self)@.span_of(*hash, parent_hash))
                    } else {
                        None
                    })
                    &&& all_answered(old(self)@.activation_answers(*hash, supported))
                },
            final(self).checker() == old(self).checker(),
    {
        let supported = self.supports_parachains.head_supports_parachains(hash);
        assert(said(self.supports_parachains, *hash, supported));
        self.activate_head(hash, parent_hash, supported)
    }

    /// Reacts to the import of a block.
    ///
    /// The block must agree with the leaves that are known; `import_agrees` tells.
    pub fn block_imported(&mut self, block: BlockInfo) -> (reaction: Reaction)
        requires
            old(self)@.import_agrees(block),
        ensures
            import_outcome(
                old(self).checker(),
                old(self)@,
                block,
                final(self)@,
                signals_of(reaction.signals@),
                sequences(reaction.closed@),
            ),
            old(self)@.well_formed() ==> final(self)@.well_formed(),
            final(self).checker() == old(self).checker(),
    {
        if self.active_leaves.contains_key(&block.hash) {
            let nothing = Reaction { signals: Vec::new(), closed: LeafMap::new() };
            assert(signals_of(nothing.signals@) =~= Seq::<SignalView>::empty());
            assert(sequences(nothing.closed@) =~= Map::<BlockHash, Seq<Listener>>::empty());
            return nothing;
        }
        let supported = self.supports_parachains.head_supports_parachains(&block.hash);
        assert(said(self.supports_parachains, block.hash, supported));
        let (update, parents) = self.import_leaf(block, supported);
        let mut closed = self.clean_up_external_listeners();
        let ghost gone = closed@;
        if !parents.is_empty() {
            closed.insert(block.parent_hash, parents);
            assert(sequences(gone.insert(block.parent_hash, parents)) =~= sequences(gone).insert(
                block.parent_hash,
                parents@,
            ));
        }
        Reaction { signals: broadcast_update(update), closed }
    }

    /// Starts: takes up the leaves to start with. Returns the signals to broadcast.
    pub fn start(&mut self) -> (signals: Vec<OverseerSignal>)
        ensures
            start_outcome(old(self).checker(), old(self)@, final(self)@, signals_of(signals@)),
            old(self)@.well_formed() ==> final(self)@.well_formed(),
            final(self).checker() == old(self).checker(),
    {
        let mut supported: Vec<bool> = Vec::new();
        let mut i: usize = 0;
        while i < self.leaves.len()
            invariant
                i <= self.leaves@.len(),
                *self == *old(self),
                supported@.len() == i,
                forall|j: int|
                    0 <= j < i ==> said(
                        self.supports_parachains,
                        (#[trigger] self.leaves@[j]).0,
                        supported@[j],
                    ),
            decreases self.leaves@.len() - i,
        {
            let hash = self.leaves[i].0;
            let head_supported = self.supports_parachains.head_supports_parachains(&hash);
            assert(said(self.supports_parachains, hash, head_supported));
            supported.push(head_supported);
            i += 1;
        }
        self.start_leaves(&supported)
    }
}

proof fn lemma_push_to_set(items: Seq<BlockHash>, item: BlockHash)
    ensures
        items.push(item).to_set() == items.to_set().insert(item),
{
    assert forall|h: BlockHash| #[trigger]
        items.push(item).contains(h) <==> items.contains(h) || h == item by {
        if items.contains(h) {
            let k = choose|k: int| 0 <= k < items.len() && items[k] == h;
            assert(items.push(item)[k] == h);
        }
        assert(items.push(item)[items.len() as int] == item);
    }
    assert(items.push(item).to_set() =~= items.to_set().insert(item));
}

} // verus!
