//! What holds of the overseer as a whole.

use vstd::prelude::*;

use crate::dispatch::{concerned, dispatchable_of};
use crate::listeners::{dead, live, marks, reports, Listener};
use crate::overseer::{
    all_answered, finality_outcome, import_outcome, said, start_outcome, HeadSupportsParachains,
};
use crate::primitives::{BlockHash, BlockInfo, BlockNumber};
use crate::signal::{update_signals, ActivatedLeaf, SignalView, UpdateView};
use crate::state::{supported_at, OverseerState};
use crate::subsystems::{all_kinds, network_messages, AllMessages, MessageKind};

verus! {

/// One change of the overseer's state, with everything that the outside decided about it.
pub enum Change {
    /// The start, with the checker's answers for the leaves to start with.
    Start { answers: Seq<bool> },
    /// The import of a block, with the checker's answer and the listeners found to have gone.
    Import { block: BlockInfo, supported: bool, canceled: Map<BlockHash, Seq<bool>> },
    /// The finality of a block with the given number.
    Finality { number: BlockNumber },
    /// A request to be told when a block is active.
    Request { hash: BlockHash, listener: Listener },
}

impl OverseerState {
    /// The state after one change.
    pub open spec fn changed(self, change: Change) -> OverseerState {
        match change {
            Change::Start { answers } => self.started(answers),
            Change::Import { block, supported, canceled } => if self.is_active(block.hash) {
                self
            } else {
                self.imported(block, supported).cleaned_up(canceled)
            },
            Change::Finality { number } => self.finalized(number),
            Change::Request { hash, listener } => self.requested(hash, listener),
        }
    }

    /// The state after a run of changes.
    pub open spec fn after(self, changes: Seq<Change>) -> OverseerState
        decreases changes.len(),
    {
        if changes.len() == 0 {
            self
        } else {
            self.after(changes.drop_last()).changed(changes.last())
        }
    }

    /// The hashes that a change announces as activated.
    pub open spec fn announced(self, change: Change) -> Set<BlockHash> {
        match change {
            Change::Start { answers } => hashes(self.start_update(answers).activated),
            Change::Import { block, supported, canceled: _ } => hashes(
                self.import_update(block, supported).activated,
            ),
            _ => Set::empty(),
        }
    }

    /// The hashes that a change announces as deactivated.
    pub open spec fn withdrawn(self, change: Change) -> Set<BlockHash> {
        match change {
            Change::Import { block, supported, canceled: _ } => self.import_update(
                block,
                supported,
            ).deactivated.to_set(),
            Change::Finality { number } => self.leaves_up_to(number),
            _ => Set::empty(),
        }
    }

    /// What a subsystem that starts out with `known` takes to be the leaves to work on, if it
    /// follows the updates that a run of changes announces.
    pub open spec fn followed(self, known: Set<BlockHash>, changes: Seq<Change>) -> Set<BlockHash>
        decreases changes.len(),
    {
        if changes.len() == 0 {
            known
        } else {
            let before = self.after(changes.drop_last());
            self.followed(known, changes.drop_last()).union(
                before.announced(changes.last()),
            ).difference(before.withdrawn(changes.last()))
        }
    }

    /// Whether a change answers the listener.
    pub open spec fn answers(self, change: Change, listener: Listener) -> bool {
        match change {
            Change::Start { answers } => exists|i: int|
                0 <= i < self.leaves.len() && (#[trigger] self.start_answers(i, answers)).contains(
                    listener,
                ),
            Change::Import { block, supported, canceled: _ } => self.import_answers(
                block,
                supported,
            ).contains(listener),
            Change::Finality { number: _ } => false,
            Change::Request { hash, listener: asking } => self.is_active(hash) && asking
                == listener,
        }
    }

    /// The listeners of `hash` whom a change answers.
    pub open spec fn answered_of(self, change: Change, hash: BlockHash) -> Seq<Listener> {
        match change {
            Change::Start { answers } => if self.starts_up_to(
                self.leaves.len() as int,
                answers,
                hash,
            ) {
                self.listeners_of(hash)
            } else {
                Seq::empty()
            },
            Change::Import { block, supported, canceled: _ } => if block.hash == hash {
                self.import_answers(block, supported)
            } else {
                Seq::empty()
            },
            Change::Finality { number: _ } => Seq::empty(),
            Change::Request { hash: asked, listener } => if asked == hash && self.is_active(
                hash,
            ) {
                seq![listener]
            } else {
                Seq::empty()
            },
        }
    }

    /// The listeners whom a change gives up and hands back unanswered, under their hashes.
    pub open spec fn given_up(self, change: Change) -> Map<BlockHash, Seq<Listener>> {
        match change {
            Change::Import { block, supported, canceled } => if self.is_active(block.hash) {
                Map::empty()
            } else {
                self.import_given_up(block, supported, canceled)
            },
            Change::Finality { number } => self.finality_closed(number),
            _ => Map::empty(),
        }
    }

    /// The listeners of `hash` whom a change gives up and hands back unanswered.
    pub open spec fn given_up_of(self, change: Change, hash: BlockHash) -> Seq<Listener> {
        if self.given_up(change).contains_key(hash) {
            self.given_up(change)[hash]
        } else {
            Seq::empty()
        }
    }

    /// Work starts on `hash`, as one of the first `n` leaves to start with.
    pub open spec fn starts_up_to(self, n: int, answers: Seq<bool>, hash: BlockHash) -> bool {
        exists|i: int|
            0 <= i < n && (#[trigger] self.leaves[i]).0 == hash && supported_at(answers, i)
    }

    /// What the checker answers about a change is what `supports` says of the hash.
    pub open spec fn decided_by(
        self,
        change: Change,
        supports: spec_fn(BlockHash) -> bool,
    ) -> bool {
        match change {
            Change::Start { answers } => forall|i: int|
                0 <= i < self.leaves.len() ==> supported_at(answers, i) == supports(
                    (#[trigger] self.leaves[i]).0,
                ),
            Change::Import { block, supported, canceled: _ } => supported == supports(block.hash),
            _ => true,
        }
    }

    /// The hashes with a span are the active leaves that `supports` holds of.
    pub open spec fn spans_where(self, supports: spec_fn(BlockHash) -> bool) -> bool {
        forall|h: BlockHash| #[trigger]
            self.spans.contains_key(h) <==> self.is_active(h) && supports(h)
    }

    /// Whether a change finds that the listener, who waits for `hash`, has gone.
    pub open spec fn finds_gone(self, change: Change, hash: BlockHash, listener: Listener) -> bool {
        match change {
            Change::Import { block, supported, canceled } => exists|i: int|
                {
                    &&& 0 <= i < marks(canceled, hash).len()
                    &&& i < self.imported(block, supported).listeners_of(hash).len()
                    &&& #[trigger] self.imported(block, supported).listeners_of(hash)[i] == listener
                    &&& marks(canceled, hash)[i]
                },
            _ => false,
        }
    }

    /// Whether a change makes `hash` an active leaf, or tries to.
    pub open spec fn activates(self, change: Change, hash: BlockHash) -> bool {
        match change {
            Change::Start { answers: _ } => exists|i: int|
                0 <= i < self.leaves.len() && (#[trigger] self.leaves[i]).0 == hash,
            Change::Import { block, supported: _, canceled: _ } => block.hash == hash,
            _ => false,
        }
    }

    /// Whether one of a run of changes answers the listener.
    pub open spec fn answers_in_run(self, changes: Seq<Change>, listener: Listener) -> bool {
        exists|i: int|
            0 <= i < changes.len() && self.after(changes.take(i)).answers(
                #[trigger] changes[i],
                listener,
            )
    }

    /// The blocks of a change have the numbers that `number_of` gives them, and the parent of an
    /// imported block has the number before.
    pub open spec fn on_chain(
        self,
        change: Change,
        number_of: spec_fn(BlockHash) -> BlockNumber,
    ) -> bool {
        match change {
            Change::Start { answers: _ } => forall|i: int|
                0 <= i < self.leaves.len() ==> (#[trigger] self.leaves[i]).1 == number_of(
                    self.leaves[i].0,
                ),
            Change::Import { block, supported: _, canceled: _ } => {
                &&& block.number == number_of(block.hash)
                &&& number_of(block.parent_hash) == block.number.saturating_sub(1)
            },
            _ => true,
        }
    }

    /// Every active leaf has the number that `number_of` gives it.
    pub open spec fn numbered_by(self, number_of: spec_fn(BlockHash) -> BlockNumber) -> bool {
        forall|h: BlockHash| #[trigger]
            self.active_leaves.contains_key(h) ==> self.active_leaves[h] == number_of(h)
    }
}

/// What the checker says of a head is what `supports` says of its hash.
pub open spec fn says<C: HeadSupportsParachains>(
    checker: C,
    supports: spec_fn(BlockHash) -> bool,
) -> bool {
    forall|head: BlockHash, supported: bool| #[trigger]
        said(checker, head, supported) ==> supported == supports(head)
}

/// The update that a list of signals carries; an empty one if it carries none.
pub open spec fn carried(signals: Seq<SignalView>) -> UpdateView {
    if signals.len() > 0 {
        match signals.last() {
            SignalView::ActiveLeaves(update) => update,
            _ => UpdateView::empty(),
        }
    } else {
        UpdateView::empty()
    }
}

/// `signals` announce what the change announces.
pub open spec fn signals_tell(
    before: OverseerState,
    change: Change,
    signals: Seq<SignalView>,
) -> bool {
    &&& hashes(carried(signals).activated) == before.announced(change)
    &&& carried(signals).deactivated.to_set() == before.withdrawn(change)
}

/// The hashes of a list of leaves.
pub open spec fn hashes(leaves: Seq<ActivatedLeaf>) -> Set<BlockHash> {
    leaves.map_values(|leaf: ActivatedLeaf| leaf.hash).to_set()
}

/// The listeners of `hash` who come with a change.
pub open spec fn arrived(change: Change, hash: BlockHash) -> Seq<Listener> {
    match change {
        Change::Request { hash: asked, listener } => if asked == hash {
            seq![listener]
        } else {
            Seq::empty()
        },
        _ => Seq::empty(),
    }
}

proof fn lemma_hashes_push(leaves: Seq<ActivatedLeaf>, leaf: ActivatedLeaf)
    ensures
        hashes(leaves.push(leaf)) == hashes(leaves).insert(leaf.hash),
{
    let before = leaves.map_values(|l: ActivatedLeaf| l.hash);
    let next = leaves.push(leaf).map_values(|l: ActivatedLeaf| l.hash);
    assert forall|h: BlockHash| #[trigger]
        next.contains(h) <==> before.contains(h) || h == leaf.hash by {
        if before.contains(h) {
            let k = choose|k: int| 0 <= k < before.len() && before[k] == h;
            assert(next[k] == h);
        }
        assert(next[before.len() as int] == leaf.hash);
        if next.contains(h) && h != leaf.hash {
            let k = choose|k: int| 0 <= k < next.len() && next[k] == h;
            assert(before[k] == h);
        }
    }
    assert(hashes(leaves.push(leaf)) =~= hashes(leaves).insert(leaf.hash));
}

/// Taking up the leaves to start with keeps the invariant, and adds those on which work starts
/// to the leaves with a span.
proof fn lemma_started(s: OverseerState, n: int, supported: Seq<bool>)
    requires
        0 <= n <= s.leaves.len(),
    ensures
        s.well_formed() ==> s.started_up_to(n, supported).well_formed(),
        s.started_up_to(n, supported).spans.dom() == s.spans.dom().union(
            hashes(s.started_leaves(n, supported)),
        ),
    decreases n,
{
    if n > 0 {
        lemma_started(s, n - 1, supported);
        let (hash, number) = s.leaves[n - 1];
        let before = s.started_leaves(n - 1, supported);
        if supported_at(supported, n - 1) {
            lemma_hashes_push(
                before,
                ActivatedLeaf { hash, number, span: s.span_of(hash, None) },
            );
        }
        assert(s.started_up_to(n, supported).spans.dom() =~= s.spans.dom().union(
            hashes(s.started_leaves(n, supported)),
        ));
    } else {
        assert(hashes(s.started_leaves(n, supported)) =~= Set::<BlockHash>::empty());
        assert(s.started_up_to(n, supported).spans.dom() =~= s.spans.dom().union(
            hashes(s.started_leaves(n, supported)),
        ));
    }
}

/// Whatever happens, and whatever the outside decides about it, the overseer's bookkeeping stays
/// in order: spans belong to active leaves, nobody waits for a leaf on which work has started,
/// and no empty list of listeners is kept.
pub proof fn law_bookkeeping_stays_in_order(s: OverseerState, changes: Seq<Change>)
    requires
        s.well_formed(),
    ensures
        s.after(changes).well_formed(),
    decreases changes.len(),
{
    if changes.len() > 0 {
        let before = s.after(changes.drop_last());
        law_bookkeeping_stays_in_order(s, changes.drop_last());
        if let Change::Start { answers } = changes.last() {
            lemma_started(before, before.leaves.len() as int, answers);
        }
    }
}

/// A subsystem that follows the updates of the active leaves knows at any time on which leaves
/// work is going on: those that have a span. The overseer announces deltas only, and they
/// suffice.
pub proof fn law_updates_suffice(s: OverseerState, changes: Seq<Change>)
    ensures
        s.followed(s.spans.dom(), changes) == s.after(changes).spans.dom(),
    decreases changes.len(),
{
    if changes.len() > 0 {
        let before = s.after(changes.drop_last());
        let change = changes.last();
        law_updates_suffice(s, changes.drop_last());
        match change {
            Change::Start { answers } => {
                lemma_started(before, before.leaves.len() as int, answers);
            },
            Change::Import { block, supported, canceled: _ } => {
                let update = before.import_update(block, supported);
                let none = Seq::<ActivatedLeaf>::empty();
                assert(hashes(none) =~= Set::<BlockHash>::empty());
                if update.activated.len() > 0 {
                    lemma_hashes_push(none, update.activated[0]);
                    assert(none.push(update.activated[0]) =~= update.activated);
                } else {
                    assert(update.activated =~= none);
                }
                if update.deactivated.len() > 0 {
                    assert(update.deactivated[0] == block.parent_hash);
                    assert(update.deactivated.to_set() =~= set![block.parent_hash]);
                } else {
                    assert(update.deactivated.to_set() =~= Set::<BlockHash>::empty());
                }
            },
            _ => {},
        }
        assert(before.spans.dom().union(before.announced(change)).difference(
            before.withdrawn(change),
        ) =~= before.changed(change).spans.dom());
    }
}

/// The import of a block is a change of the state, the signals that are broadcast for it tell of
/// exactly that change, and the listeners whom the change gives up are handed back. Of a new block,
/// whether it is supported is what the checker said, and who has gone is what the channels
/// reported.
pub proof fn law_import_is_told<C: HeadSupportsParachains>(
    checker: C,
    before: OverseerState,
    block: BlockInfo,
    after: OverseerState,
    signals: Seq<SignalView>,
    closed: Map<BlockHash, Seq<Listener>>,
)
    requires
        import_outcome(checker, before, block, after, signals, closed),
    ensures
        exists|supported: bool, canceled: Map<BlockHash, Seq<bool>>|
            {
                &&& #[trigger] signals_tell(
                    before,
                    Change::Import { block, supported, canceled },
                    signals,
                )
                &&& after == before.changed(Change::Import { block, supported, canceled })
                &&& closed == before.given_up(Change::Import { block, supported, canceled })
                &&& !before.is_active(block.hash) ==> {
                    &&& said(checker, block.hash, supported)
                    &&& reports(before.imported(block, supported).listeners, canceled)
                }
            },
{
    if before.is_active(block.hash) {
        let change = Change::Import { block, supported: false, canceled: Map::empty() };
        assert(carried(signals) == before.import_update(block, false));
        assert(signals_tell(before, change, signals));
    } else {
        let (supported, canceled): (bool, Map<BlockHash, Seq<bool>>) =
            choose|supported: bool, canceled: Map<BlockHash, Seq<bool>>|
            {
                &&& said(checker, block.hash, supported)
                &&& #[trigger] reports(before.imported(block, supported).listeners, canceled)
                &&& after == before.imported(block, supported).cleaned_up(canceled)
                &&& signals == update_signals(before.import_update(block, supported))
                &&& all_answered(before.import_answers(block, supported))
                &&& closed == before.import_given_up(block, supported, canceled)
            };
        let change = Change::Import { block, supported, canceled };
        assert(carried(signals) =~= before.import_update(block, supported));
        assert(signals_tell(before, change, signals));
    }
}

/// The finality of a block is a change of the state, the signals that are broadcast for it tell of
/// the block and of exactly that change, and the listeners whom the change gives up are handed
/// back.
pub proof fn law_finality_is_told(
    before: OverseerState,
    block: BlockInfo,
    after: OverseerState,
    signals: Seq<SignalView>,
    closed: Map<BlockHash, Seq<Listener>>,
)
    requires
        finality_outcome(before, block, after, signals, closed),
    ensures
        signals.len() > 0,
        signals[0] == SignalView::BlockFinalized(block.hash, block.number),
        signals_tell(before, Change::Finality { number: block.number }, signals),
        after == before.changed(Change::Finality { number: block.number }),
        closed == before.given_up(Change::Finality { number: block.number }),
        signals.len() == 1 <==> before.leaves_up_to(block.number) == Set::<BlockHash>::empty(),
{
    let gone = choose|gone: Seq<BlockHash>|
        {
            &&& #[trigger] gone.no_duplicates()
            &&& gone.to_set() == before.leaves_up_to(block.number)
            &&& signals == seq![SignalView::BlockFinalized(block.hash, block.number)]
                + update_signals(UpdateView { activated: Seq::empty(), deactivated: gone })
        };
    let update = UpdateView { activated: Seq::empty(), deactivated: gone };
    assert(hashes(Seq::empty()) =~= Set::<BlockHash>::empty());
    if gone.len() == 0 {
        assert(gone.to_set() =~= Set::<BlockHash>::empty());
        assert(Seq::<BlockHash>::empty().to_set() =~= Set::<BlockHash>::empty());
    } else {
        assert(gone.to_set().contains(gone[0]));
        assert(signals.last() == SignalView::ActiveLeaves(update));
    }
}

/// The start is a change of the state, and the signals that are broadcast for it tell of exactly
/// that change. On which leaves work starts is what the checker said of them.
pub proof fn law_start_is_told<C: HeadSupportsParachains>(
    checker: C,
    before: OverseerState,
    after: OverseerState,
    signals: Seq<SignalView>,
)
    requires
        start_outcome(checker, before, after, signals),
    ensures
        exists|answers: Seq<bool>|
            {
                &&& #[trigger] signals_tell(before, Change::Start { answers }, signals)
                &&& after == before.changed(Change::Start { answers })
                &&& answers.len() == before.leaves.len()
                &&& forall|i: int|
                    0 <= i < answers.len() ==> said(
                        checker,
                        (#[trigger] before.leaves[i]).0,
                        answers[i],
                    )
            },
{
    let answers = choose|supported: Seq<bool>|
        {
            &&& #[trigger] supported.len() == before.leaves.len()
            &&& forall|i: int|
                0 <= i < supported.len() ==> said(
                    checker,
                    (#[trigger] before.leaves[i]).0,
                    supported[i],
                )
            &&& after == before.started(supported)
            &&& signals == update_signals(before.start_update(supported))
            &&& forall|i: int|
                0 <= i < before.leaves.len() ==> all_answered(
                    #[trigger] before.start_answers(i, supported),
                )
        };
    let change = Change::Start { answers };
    assert(carried(signals) =~= before.start_update(answers));
    assert(Seq::<BlockHash>::empty().to_set() =~= Set::<BlockHash>::empty());
    assert(signals_tell(before, change, signals));
}

/// No listener is lost: whoever waits for a block goes on waiting through any change, unless the
/// change answers them, or hands them back unanswered. It does so only if it finds that they have
/// gone or deactivates the block.
pub proof fn law_no_listener_is_lost(
    s: OverseerState,
    change: Change,
    hash: BlockHash,
    listener: Listener,
)
    requires
        s.listeners_of(hash).contains(listener),
    ensures
        s.changed(change).listeners_of(hash).contains(listener) || s.answers(change, listener)
            || (s.given_up_of(change, hash).contains(listener) && (s.finds_gone(
            change,
            hash,
            listener,
        ) || s.withdrawn(change).contains(hash))),
{
    broadcast use vstd::seq_lib::group_to_multiset_ensures;

    law_listeners_are_accounted_for(s, change, hash);
    assert(s.listeners_of(hash).to_multiset().add(arrived(change, hash).to_multiset()).count(
        listener,
    ) > 0);
    assert(s.changed(change).listeners_of(hash).contains(listener) || s.answered_of(
        change,
        hash,
    ).contains(listener) || s.given_up_of(change, hash).contains(listener));
    match change {
        Change::Start { answers } => {
            lemma_started_listeners(s, s.leaves.len() as int, answers, hash, listener);
        },
        Change::Import { block, supported, canceled } => {
            let next = s.imported(block, supported);
            let update = s.import_update(block, supported);
            if !s.is_active(block.hash) && !s.answers(change, listener) {
                if update.deactivated.len() > 0 && hash == block.parent_hash {
                    assert(update.deactivated[0] == hash);
                } else {
                    assert(next.listeners_of(hash) == s.listeners_of(hash));
                    let i = choose|i: int|
                        0 <= i < s.listeners_of(hash).len() && s.listeners_of(hash)[i] == listener;
                    if !s.finds_gone(change, hash, listener) {
                        assert(next.listeners_of(hash)[i] == listener);
                        lemma_live_keeps(next.listeners[hash], marks(canceled, hash), i);
                    }
                }
            }
        },
        Change::Finality { number: _ } => {},
        Change::Request { hash: asked, listener: asking } => {
            if asked == hash && !s.is_active(asked) {
                let i = choose|i: int|
                    0 <= i < s.listeners_of(hash).len() && s.listeners_of(hash)[i] == listener;
                assert(s.changed(change).listeners_of(hash)[i] == listener);
            }
        },
    }
}

/// Whoever waits for a block is answered when it is imported and its head supports parachains,
/// whatever happens in between, unless they are found to have gone by then. In other words: a
/// listener waits for the activation, and the activation answers.
pub proof fn law_activation_answers_whoever_waits(
    s: OverseerState,
    changes: Seq<Change>,
    block: BlockInfo,
    canceled: Map<BlockHash, Seq<bool>>,
    listener: Listener,
)
    requires
        !s.is_active(block.hash),
        s.listeners_of(block.hash).contains(listener),
        forall|i: int|
            0 <= i < changes.len() ==> !s.after(changes.take(i)).activates(
                #[trigger] changes[i],
                block.hash,
            ),
        forall|i: int|
            0 <= i < changes.len() ==> !s.after(changes.take(i)).finds_gone(
                #[trigger] changes[i],
                block.hash,
                listener,
            ),
    ensures
        s.answers_in_run(
            changes.push(Change::Import { block, supported: true, canceled }),
            listener,
        ),
{
    let import = Change::Import { block, supported: true, canceled };
    let run = changes.push(import);
    lemma_waits(s, changes, block.hash, listener);
    assert(run.take(changes.len() as int) =~= changes);
    if s.answers_in_run(changes, listener) {
        let i = choose|i: int|
            0 <= i < changes.len() && s.after(changes.take(i)).answers(
                #[trigger] changes[i],
                listener,
            );
        assert(run.take(i) =~= changes.take(i));
        assert(run[i] == changes[i]);
    } else {
        assert(s.after(changes).answers(import, listener));
        assert(run[changes.len() as int] == import);
    }
}

proof fn lemma_waits(s: OverseerState, changes: Seq<Change>, hash: BlockHash, listener: Listener)
    requires
        !s.is_active(hash),
        s.listeners_of(hash).contains(listener),
        forall|i: int|
            0 <= i < changes.len() ==> !s.after(changes.take(i)).activates(
                #[trigger] changes[i],
                hash,
            ),
        forall|i: int|
            0 <= i < changes.len() ==> !s.after(changes.take(i)).finds_gone(
                #[trigger] changes[i],
                hash,
                listener,
            ),
    ensures
        !s.after(changes).is_active(hash),
        s.after(changes).listeners_of(hash).contains(listener) || s.answers_in_run(
            changes,
            listener,
        ),
    decreases changes.len(),
{
    if changes.len() > 0 {
        let n = changes.len() - 1;
        let earlier = changes.drop_last();
        let change = changes.last();
        assert(earlier =~= changes.take(n));
        assert forall|i: int| 0 <= i < earlier.len() implies !s.after(earlier.take(i)).activates(
            #[trigger] earlier[i],
            hash,
        ) && !s.after(earlier.take(i)).finds_gone(earlier[i], hash, listener) by {
            assert(earlier.take(i) =~= changes.take(i));
            assert(earlier[i] == changes[i]);
        }
        lemma_waits(s, earlier, hash, listener);
        let before = s.after(earlier);
        assert(changes[n] == change);
        if let Change::Start { answers } = change {
            lemma_started_active(before, before.leaves.len() as int, answers, hash);
        }
        assert(!before.changed(change).is_active(hash));
        if s.answers_in_run(earlier, listener) {
            let i = choose|i: int|
                0 <= i < earlier.len() && s.after(earlier.take(i)).answers(
                    #[trigger] earlier[i],
                    listener,
                );
            assert(earlier.take(i) =~= changes.take(i));
            assert(changes[i] == earlier[i]);
        } else {
            law_no_listener_is_lost(before, change, hash, listener);
            if let Change::Import { block, supported, canceled: _ } = change {
                let gone = before.import_update(block, supported).deactivated;
                if gone.contains(hash) {
                    assert(gone[0] == hash);
                }
            }
            assert(!before.withdrawn(change).contains(hash));
        }
    }
}

proof fn lemma_started_listeners(
    s: OverseerState,
    n: int,
    answers: Seq<bool>,
    hash: BlockHash,
    listener: Listener,
)
    requires
        0 <= n <= s.leaves.len(),
        s.listeners_of(hash).contains(listener),
    ensures
        s.started_up_to(n, answers).listeners_of(hash).contains(listener) || exists|i: int|
            0 <= i < n && (#[trigger] s.start_answers(i, answers)).contains(listener),
    decreases n,
{
    if n > 0 {
        lemma_started_listeners(s, n - 1, answers, hash, listener);
        let before = s.started_up_to(n - 1, answers);
        if before.listeners_of(hash).contains(listener) && s.leaves[n - 1].0 == hash
            && supported_at(answers, n - 1) {
            assert(s.start_answers(n - 1, answers) == before.listeners_of(hash));
        }
    }
}

/// A new block takes the place of its parent among the active leaves, whether or not its head
/// supports parachains.
pub proof fn law_child_replaces_parent(s: OverseerState, block: BlockInfo, supported: bool)
    requires
        !s.is_active(block.hash),
    ensures
        s.imported(block, supported).active_leaves == s.active_leaves.insert(
            block.hash,
            block.number,
        ).remove(block.parent_hash),
{
    assert(s.imported(block, supported).active_leaves =~= s.active_leaves.insert(
        block.hash,
        block.number,
    ).remove(block.parent_hash));
}

/// The import of a block a second time changes nothing, announces nothing and answers nobody,
/// unless the block is its own parent.
pub proof fn law_import_is_idempotent(
    s: OverseerState,
    block: BlockInfo,
    supported: bool,
    supported_again: bool,
)
    requires
        block.hash != block.parent_hash,
    ensures
        s.imported(block, supported).imported(block, supported_again) == s.imported(
            block,
            supported,
        ),
        s.imported(block, supported).import_update(block, supported_again) == UpdateView::empty(),
        s.imported(block, supported).import_answers(block, supported_again).len() == 0,
{
}

/// After the finality of a block every active leaf is above it; no leaf above it was lost, and
/// none was added.
pub proof fn law_finality_leaves_what_is_above(
    s: OverseerState,
    number: BlockNumber,
    hash: BlockHash,
)
    ensures
        s.finalized(number).is_active(hash) <==> s.is_active(hash) && s.active_leaves[hash]
            > number,
        s.finalized(number).is_active(hash) ==> s.finalized(number).active_leaves[hash]
            == s.active_leaves[hash],
{
}

/// Finality is monotone: once a block is final, the finality of a block that is not above it
/// changes nothing and deactivates no leaf.
pub proof fn law_finality_is_monotone(s: OverseerState, number: BlockNumber, earlier: BlockNumber)
    requires
        earlier <= number,
    ensures
        s.finalized(number).finalized(earlier) == s.finalized(number),
        s.finalized(number).leaves_up_to(earlier) == Set::<BlockHash>::empty(),
{
    let once = s.finalized(number);
    assert(once.leaves_up_to(earlier) =~= Set::<BlockHash>::empty());
    assert(once.finalized(earlier) =~= once);
}

/// Whoever waits for a block is answered when that block is imported and its head supports
/// parachains.
pub proof fn law_waiting_listener_is_answered(
    s: OverseerState,
    block: BlockInfo,
    listener: Listener,
)
    requires
        !s.is_active(block.hash),
    ensures
        s.requested(block.hash, listener).import_answers(block, true).contains(listener),
        s.requested(block.hash, listener).imported(block, true).listeners_of(block.hash).len()
            == 0,
{
    let waiting = s.listeners_of(block.hash).push(listener);
    assert(waiting[waiting.len() - 1] == listener);
    assert(s.requested(block.hash, listener).import_answers(block, true) =~= waiting);
}

/// A request for a leaf that is active already leaves no trace.
pub proof fn law_active_leaf_needs_no_waiting(
    s: OverseerState,
    hash: BlockHash,
    listener: Listener,
)
    requires
        s.is_active(hash),
    ensures
        s.requested(hash, listener) == s,
{
}

/// Whoever waits for a block is not answered by the import of another block and goes on waiting,
/// with all others who wait for it.
pub proof fn law_others_go_on_waiting(
    s: OverseerState,
    block: BlockInfo,
    supported: bool,
    hash: BlockHash,
)
    requires
        hash != block.hash,
        !s.is_active(hash),
    ensures
        s.imported(block, supported).listeners_of(hash) == s.listeners_of(hash),
{
}

/// When a leaf is deactivated, by the import of its child or by the finality of a block that it is
/// not above, nobody waits for it any longer, and the listeners who waited are exactly those who
/// are handed back unanswered. A block that is its own parent is the exception: its listeners have
/// been answered by then if its head supports parachains.
pub proof fn law_deactivation_hands_listeners_back(
    s: OverseerState,
    change: Change,
    hash: BlockHash,
)
    requires
        s.withdrawn(change).contains(hash),
    ensures
        s.changed(change).listeners_of(hash).len() == 0,
        s.given_up_of(change, hash) == (if s.answered_of(change, hash).len() > 0 {
            Seq::empty()
        } else {
            s.listeners_of(hash)
        }),
        s.answered_of(change, hash).len() > 0 ==> (change matches Change::Import { block, .. }
            && block.hash == block.parent_hash),
{
    if let Change::Import { block, supported, canceled: _ } = change {
        let gone = s.import_update(block, supported).deactivated;
        assert(gone.to_set().contains(hash) ==> gone.contains(hash));
        assert(hash == block.parent_hash);
    }
}

/// The removal of listeners who have gone takes nobody else: a listener without a mark stays.
pub proof fn law_only_marked_listeners_go(
    s: OverseerState,
    canceled: Map<BlockHash, Seq<bool>>,
    hash: BlockHash,
    i: int,
)
    requires
        s.listeners.contains_key(hash),
        0 <= i < s.listeners[hash].len(),
        i < marks(canceled, hash).len() ==> !marks(canceled, hash)[i],
    ensures
        s.cleaned_up(canceled).listeners_of(hash).contains(s.listeners[hash][i]),
{
    lemma_live_keeps(s.listeners[hash], marks(canceled, hash), i);
}

/// Every listener is accounted for: those who waited for a block before a change and those who
/// come with it either wait for it afterwards, or have been answered, or are handed back
/// unanswered. Nobody is in two of these places, and nobody appears from elsewhere.
pub proof fn law_listeners_are_accounted_for(s: OverseerState, change: Change, hash: BlockHash)
    ensures
        s.listeners_of(hash).to_multiset().add(arrived(change, hash).to_multiset())
            == s.changed(change).listeners_of(hash).to_multiset().add(
            s.answered_of(change, hash).to_multiset(),
        ).add(s.given_up_of(change, hash).to_multiset()),
{
    broadcast use vstd::seq_lib::group_to_multiset_ensures;

    let none = Seq::<Listener>::empty().to_multiset();
    assert(none =~= vstd::multiset::Multiset::empty());
    match change {
        Change::Start { answers } => {
            lemma_started_lists(s, s.leaves.len() as int, answers, hash);
        },
        Change::Import { block, supported, canceled } => {
            let next = s.imported(block, supported);
            if !s.is_active(block.hash) {
                lemma_parted(next.listeners_of(hash), marks(canceled, hash));
                assert(s.changed(change).listeners_of(hash) =~= live(
                    next.listeners_of(hash),
                    marks(canceled, hash),
                ));
            }
        },
        Change::Finality { number: _ } => {},
        Change::Request { hash: asked, listener } => {
            assert(seq![listener] =~= Seq::<Listener>::empty().push(listener));
        },
    }
}

proof fn lemma_parted<T>(items: Seq<T>, canceled: Seq<bool>)
    ensures
        items.to_multiset() == live(items, canceled).to_multiset().add(
            dead(items, canceled).to_multiset(),
        ),
    decreases items.len(),
{
    broadcast use vstd::seq_lib::group_to_multiset_ensures;

    if items.len() > 0 {
        lemma_parted(items.drop_last(), canceled);
        assert(items =~= items.drop_last().push(items.last()));
    }
    assert(items.to_multiset() =~= live(items, canceled).to_multiset().add(
        dead(items, canceled).to_multiset(),
    ));
}

proof fn lemma_started_lists(s: OverseerState, n: int, answers: Seq<bool>, hash: BlockHash)
    requires
        0 <= n <= s.leaves.len(),
    ensures
        s.started_up_to(n, answers).listeners_of(hash) == (if s.starts_up_to(n, answers, hash) {
            Seq::empty()
        } else {
            s.listeners_of(hash)
        }),
    decreases n,
{
    if n > 0 {
        lemma_started_lists(s, n - 1, answers, hash);
        if s.leaves[n - 1].0 == hash && supported_at(answers, n - 1) {
            assert(s.starts_up_to(n, answers, hash));
        }
    }
}

/// Where what the checker says depends on the hash alone, the hashes with a span are at any time
/// exactly the active leaves that it supports. An overseer that has not started yet has neither
/// spans nor active leaves.
pub proof fn law_spans_are_supported_leaves(
    s: OverseerState,
    changes: Seq<Change>,
    supports: spec_fn(BlockHash) -> bool,
)
    requires
        s.spans_where(supports),
        forall|i: int|
            0 <= i < changes.len() ==> s.after(changes.take(i)).decided_by(
                #[trigger] changes[i],
                supports,
            ),
    ensures
        s.after(changes).spans_where(supports),
    decreases changes.len(),
{
    if changes.len() > 0 {
        let n = changes.len() - 1;
        let earlier = changes.drop_last();
        assert(earlier =~= changes.take(n));
        assert forall|i: int| 0 <= i < earlier.len() implies s.after(earlier.take(i)).decided_by(
            #[trigger] earlier[i],
            supports,
        ) by {
            assert(earlier.take(i) =~= changes.take(i));
            assert(earlier[i] == changes[i]);
        }
        law_spans_are_supported_leaves(s, earlier, supports);
        assert(s.after(earlier).decided_by(changes[n], supports));
        lemma_spans_changed(s.after(earlier), changes[n], supports);
    }
}

/// The import of a block keeps the spans at the active leaves that the checker supports, if what
/// it says depends on the hash alone.
pub proof fn law_import_keeps_spans_where_supported<C: HeadSupportsParachains>(
    checker: C,
    before: OverseerState,
    block: BlockInfo,
    after: OverseerState,
    signals: Seq<SignalView>,
    closed: Map<BlockHash, Seq<Listener>>,
    supports: spec_fn(BlockHash) -> bool,
)
    requires
        says(checker, supports),
        before.spans_where(supports),
        import_outcome(checker, before, block, after, signals, closed),
    ensures
        after.spans_where(supports),
{
    law_import_is_told(checker, before, block, after, signals, closed);
    if !before.is_active(block.hash) {
        let (supported, canceled): (bool, Map<BlockHash, Seq<bool>>) =
            choose|supported: bool, canceled: Map<BlockHash, Seq<bool>>|
            {
                &&& #[trigger] signals_tell(
                    before,
                    Change::Import { block, supported, canceled },
                    signals,
                )
                &&& after == before.changed(Change::Import { block, supported, canceled })
                &&& closed == before.given_up(Change::Import { block, supported, canceled })
                &&& !before.is_active(block.hash) ==> {
                    &&& said(checker, block.hash, supported)
                    &&& reports(before.imported(block, supported).listeners, canceled)
                }
            };
        lemma_spans_changed(before, Change::Import { block, supported, canceled }, supports);
    }
}

/// The start puts spans at exactly the active leaves that the checker supports, if what it says
/// depends on the hash alone.
pub proof fn law_start_puts_spans_where_supported<C: HeadSupportsParachains>(
    checker: C,
    before: OverseerState,
    after: OverseerState,
    signals: Seq<SignalView>,
    supports: spec_fn(BlockHash) -> bool,
)
    requires
        says(checker, supports),
        before.spans_where(supports),
        start_outcome(checker, before, after, signals),
    ensures
        after.spans_where(supports),
{
    law_start_is_told(checker, before, after, signals);
    let answers = choose|answers: Seq<bool>|
        {
            &&& #[trigger] signals_tell(before, Change::Start { answers }, signals)
            &&& after == before.changed(Change::Start { answers })
            &&& answers.len() == before.leaves.len()
            &&& forall|i: int|
                0 <= i < answers.len() ==> said(
                    checker,
                    (#[trigger] before.leaves[i]).0,
                    answers[i],
                )
        };
    lemma_spans_changed(before, Change::Start { answers }, supports);
}

proof fn lemma_spans_changed(
    s: OverseerState,
    change: Change,
    supports: spec_fn(BlockHash) -> bool,
)
    requires
        s.spans_where(supports),
        s.decided_by(change, supports),
    ensures
        s.changed(change).spans_where(supports),
{
    if let Change::Start { answers } = change {
        lemma_started_spans(s, s.leaves.len() as int, answers, supports);
    }
}

proof fn lemma_started_spans(
    s: OverseerState,
    n: int,
    answers: Seq<bool>,
    supports: spec_fn(BlockHash) -> bool,
)
    requires
        0 <= n <= s.leaves.len(),
        s.spans_where(supports),
        s.decided_by(Change::Start { answers }, supports),
    ensures
        s.started_up_to(n, answers).spans_where(supports),
    decreases n,
{
    if n > 0 {
        lemma_started_spans(s, n - 1, answers, supports);
        assert(supported_at(answers, n - 1) == supports(s.leaves[n - 1].0));
    }
}

proof fn lemma_live_keeps<T>(items: Seq<T>, canceled: Seq<bool>, i: int)
    requires
        0 <= i < items.len(),
        i < canceled.len() ==> !canceled[i],
    ensures
        live(items, canceled).contains(items[i]),
    decreases items.len(),
{
    let kept = live(items.drop_last(), canceled);
    let all = live(items, canceled);
    if i == items.len() - 1 {
        assert(all[all.len() - 1] == items[i]);
    } else {
        lemma_live_keeps(items.drop_last(), canceled, i);
        let k = choose|k: int| 0 <= k < kept.len() && kept[k] == items[i];
        assert(all[k] == items[i]);
    }
}

/// On a chain on which every block has one number, the one after its parent's, the active leaves
/// have those numbers at any time, and every import agrees with the leaves that are known. An
/// overseer that has not started yet has no active leaves.
pub proof fn law_imports_agree_on_a_chain(
    s: OverseerState,
    changes: Seq<Change>,
    number_of: spec_fn(BlockHash) -> BlockNumber,
)
    requires
        s.numbered_by(number_of),
        forall|i: int|
            0 <= i < changes.len() ==> s.after(changes.take(i)).on_chain(
                #[trigger] changes[i],
                number_of,
            ),
    ensures
        s.after(changes).numbered_by(number_of),
        forall|i: int|
            0 <= i < changes.len() ==> (#[trigger] changes[i] matches Change::Import { block, .. }
                ==> s.after(changes.take(i)).import_agrees(block)),
{
    lemma_numbers_after(s, changes, number_of);
    assert forall|i: int| 0 <= i < changes.len() implies (#[trigger] changes[i] matches
        Change::Import { block, .. } ==> s.after(changes.take(i)).import_agrees(block)) by {
        let earlier = changes.take(i);
        assert forall|j: int| 0 <= j < earlier.len() implies s.after(earlier.take(j)).on_chain(
            #[trigger] earlier[j],
            number_of,
        ) by {
            assert(earlier.take(j) =~= changes.take(j));
            assert(earlier[j] == changes[j]);
        }
        lemma_numbers_after(s, earlier, number_of);
        lemma_numbers_changed(s.after(earlier), changes[i], number_of);
    }
}

proof fn lemma_numbers_after(
    s: OverseerState,
    changes: Seq<Change>,
    number_of: spec_fn(BlockHash) -> BlockNumber,
)
    requires
        s.numbered_by(number_of),
        forall|i: int|
            0 <= i < changes.len() ==> s.after(changes.take(i)).on_chain(
                #[trigger] changes[i],
                number_of,
            ),
    ensures
        s.after(changes).numbered_by(number_of),
    decreases changes.len(),
{
    if changes.len() > 0 {
        let n = changes.len() - 1;
        let earlier = changes.drop_last();
        assert(earlier =~= changes.take(n));
        assert forall|i: int| 0 <= i < earlier.len() implies s.after(earlier.take(i)).on_chain(
            #[trigger] earlier[i],
            number_of,
        ) by {
            assert(earlier.take(i) =~= changes.take(i));
            assert(earlier[i] == changes[i]);
        }
        lemma_numbers_after(s, earlier, number_of);
        assert(s.after(earlier).on_chain(changes[n], number_of));
        lemma_numbers_changed(s.after(earlier), changes[n], number_of);
    }
}

proof fn lemma_numbers_changed(
    s: OverseerState,
    change: Change,
    number_of: spec_fn(BlockHash) -> BlockNumber,
)
    requires
        s.numbered_by(number_of),
        s.on_chain(change, number_of),
    ensures
        s.changed(change).numbered_by(number_of),
        change matches Change::Import { block, .. } ==> s.import_agrees(block),
{
    if let Change::Start { answers } = change {
        lemma_started_numbers(s, s.leaves.len() as int, answers, number_of);
    }
}

proof fn lemma_started_numbers(
    s: OverseerState,
    n: int,
    answers: Seq<bool>,
    number_of: spec_fn(BlockHash) -> BlockNumber,
)
    requires
        0 <= n <= s.leaves.len(),
        s.numbered_by(number_of),
        s.on_chain(Change::Start { answers }, number_of),
    ensures
        s.started_up_to(n, answers).numbered_by(number_of),
    decreases n,
{
    if n > 0 {
        lemma_started_numbers(s, n - 1, answers, number_of);
        assert(s.leaves[n - 1].1 == number_of(s.leaves[n - 1].0));
    }
}

/// The start activates all leaves that it was given, and keeps those that were active.
pub proof fn law_start_activates_all_leaves(
    s: OverseerState,
    supported: Seq<bool>,
    hash: BlockHash,
)
    ensures
        s.started(supported).is_active(hash) <==> s.is_active(hash) || exists|i: int|
            0 <= i < s.leaves.len() && (#[trigger] s.leaves[i]).0 == hash,
        s.started(supported).leaves.len() == 0,
{
    lemma_started_active(s, s.leaves.len() as int, supported, hash);
}

proof fn lemma_started_active(s: OverseerState, n: int, supported: Seq<bool>, hash: BlockHash)
    requires
        0 <= n <= s.leaves.len(),
    ensures
        s.started_up_to(n, supported).is_active(hash) <==> s.is_active(hash) || exists|i: int|
            0 <= i < n && (#[trigger] s.leaves[i]).0 == hash,
        s.started_up_to(n, supported).leaves.len() == 0,
    decreases n,
{
    if n > 0 {
        lemma_started_active(s, n - 1, supported, hash);
        assert(s.leaves[n - 1].0 == hash ==> s.started_up_to(n, supported).is_active(hash));
    }
}

/// Of the overseer's subsystems, those for statement distribution, bitfield distribution and
/// approval distribution are told of network events, in this order.
#[verifier::spinoff_prover]
pub proof fn law_dispatched_subsystems()
    ensures
        dispatchable_of(all_kinds().map_values(|kind: MessageKind| kind.declaration()))
            == seq![
            &MessageKind::StatementDistribution,
            &MessageKind::BitfieldDistribution,
            &MessageKind::ApprovalDistribution,
        ],
{
    let fields = all_kinds().map_values(|kind: MessageKind| kind.declaration());
    reveal_with_fuel(Seq::filter, 19);
    assert(dispatchable_of(fields) =~= seq![
        &MessageKind::StatementDistribution,
        &MessageKind::BitfieldDistribution,
        &MessageKind::ApprovalDistribution,
    ]);
}

/// The messages of the overseer for a network event are those that its declaration calls for: one
/// for every dispatchable subsystem that the event concerns, in order.
#[verifier::spinoff_prover]
pub proof fn law_messages_follow_declarations<P>(
    statement: Option<P>,
    bitfield: Option<P>,
    approval: Option<P>,
)
    ensures
        network_messages(statement, bitfield, approval) == concerned(
            dispatchable_of(all_kinds().map_values(|kind: MessageKind| kind.declaration())),
            seq![statement, bitfield, approval],
        ).map_values(
            |message: (&MessageKind, P)|
                AllMessages { kind: *message.0, payload: message.1 },
        ),
{
    law_dispatched_subsystems();
    let types = dispatchable_of(all_kinds().map_values(|kind: MessageKind| kind.declaration()));
    let focused = seq![statement, bitfield, approval];
    let wrap = |message: (&MessageKind, P)|
        AllMessages { kind: *message.0, payload: message.1 };
    reveal_with_fuel(concerned, 4);
    assert(network_messages(statement, bitfield, approval) =~= concerned(types, focused).map_values(
        wrap,
    ));
}

} // verus!
