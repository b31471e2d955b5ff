//! The overseer's state as a mathematical value, and what each event does to it.

use vstd::prelude::*;

use crate::listeners::{only_canceled, without_canceled, Listener};
use crate::metrics::Metrics;
use crate::primitives::{BlockHash, BlockInfo, BlockNumber};
use crate::signal::{ActivatedLeaf, Span, UpdateView, LEAF_ACTIVATED};

verus! {

/// Everything that the overseer remembers.
#[verifier::ext_equal]
pub struct OverseerState {
    /// The leaves to start with, until they are taken up.
    pub leaves: Seq<(BlockHash, BlockNumber)>,
    /// The active leaves with their numbers.
    pub active_leaves: Map<BlockHash, BlockNumber>,
    /// The spans of the active leaves on which work has started.
    pub spans: Map<BlockHash, Span>,
    /// Who waits for which block to become an active leaf, in order of arrival.
    pub listeners: Map<BlockHash, Seq<Listener>>,
    /// How many leaves have come and gone.
    pub metrics: Metrics,
}

/// The answer for the `i`-th head; a head without an answer is not supported.
pub open spec fn supported_at(supported: Seq<bool>, i: int) -> bool {
    0 <= i < supported.len() && supported[i]
}

impl OverseerState {
    /// The invariant of the overseer's bookkeeping.
    ///
    /// A span belongs to an active leaf and is about that leaf. A hash in the table of
    /// listeners has at least one listener, and work on it has not started.
    pub open spec fn well_formed(self) -> bool {
        &&& forall|h: BlockHash| #[trigger]
            self.spans.contains_key(h) ==> self.active_leaves.contains_key(h)
                && self.spans[h].hash == h && !self.listeners.contains_key(h)
        &&& forall|h: BlockHash| #[trigger]
            self.listeners.contains_key(h) ==> self.listeners[h].len() > 0
    }

    /// Whether `hash` is an active leaf.
    pub open spec fn is_active(self, hash: BlockHash) -> bool {
        self.active_leaves.contains_key(hash)
    }

    /// `hash` is an active leaf with the given number.
    pub open spec fn with_leaf(self, hash: BlockHash, number: BlockNumber) -> OverseerState {
        OverseerState { active_leaves: self.active_leaves.insert(hash, number), ..self }
    }

    /// `hash` is no active leaf.
    pub open spec fn without_leaf(self, hash: BlockHash) -> OverseerState {
        OverseerState { active_leaves: self.active_leaves.remove(hash), ..self }
    }

    /// The span that is opened when `hash` is activated: it follows from the span of the parent
    /// if the parent has one.
    pub open spec fn span_of(self, hash: BlockHash, parent_hash: Option<BlockHash>) -> Span {
        Span {
            hash,
            name: LEAF_ACTIVATED,
            follows_from: match parent_hash {
                Some(p) => if self.spans.contains_key(p) {
                    Some(p)
                } else {
                    None
                },
                None => None,
            },
        }
    }

    /// Work on `hash` starts, if its head supports parachains: its listeners leave, its span is
    /// recorded, and the activation is counted.
    pub open spec fn activated(
        self,
        hash: BlockHash,
        parent_hash: Option<BlockHash>,
        supported: bool,
    ) -> OverseerState {
        if supported {
            OverseerState {
                spans: self.spans.insert(hash, self.span_of(hash, parent_hash)),
                listeners: self.listeners.remove(hash),
                metrics: self.metrics.activated(),
                ..self
            }
        } else {
            self
        }
    }

    /// The listeners who are answered when `hash` is activated.
    pub open spec fn activation_answers(self, hash: BlockHash, supported: bool) -> Seq<Listener> {
        if supported && self.listeners.contains_key(hash) {
            self.listeners[hash]
        } else {
            Seq::empty()
        }
    }

    /// Work on `hash` ends: its listeners and its span are dropped, and that is counted.
    pub open spec fn deactivated(self, hash: BlockHash) -> OverseerState {
        OverseerState {
            spans: self.spans.remove(hash),
            listeners: self.listeners.remove(hash),
            metrics: self.metrics.deactivated(1),
            ..self
        }
    }

    /// A block was imported. A known leaf changes nothing. A new one becomes an active leaf, work
    /// on it starts if its head supports parachains, and it takes the place of its parent.
    pub open spec fn imported(self, block: BlockInfo, supported: bool) -> OverseerState {
        if self.is_active(block.hash) {
            self
        } else {
            let next = self.with_leaf(block.hash, block.number).activated(
                block.hash,
                Some(block.parent_hash),
                supported,
            );
            if next.is_active(block.parent_hash) {
                next.without_leaf(block.parent_hash).deactivated(block.parent_hash)
            } else {
                next
            }
        }
    }

    /// What an import changes in the set of active leaves.
    pub open spec fn import_update(self, block: BlockInfo, supported: bool) -> UpdateView {
        if self.is_active(block.hash) {
            UpdateView::empty()
        } else {
            UpdateView {
                activated: if supported {
                    seq![
                        ActivatedLeaf {
                            hash: block.hash,
                            number: block.number,
                            span: self.span_of(block.hash, Some(block.parent_hash)),
                        },
                    ]
                } else {
                    Seq::empty()
                },
                deactivated: if self.with_leaf(block.hash, block.number).is_active(
                    block.parent_hash,
                ) {
                    seq![block.parent_hash]
                } else {
                    Seq::empty()
                },
            }
        }
    }

    /// The listeners who are answered when a block is imported.
    pub open spec fn import_answers(self, block: BlockInfo, supported: bool) -> Seq<Listener> {
        if self.is_active(block.hash) {
            Seq::empty()
        } else {
            self.activation_answers(block.hash, supported)
        }
    }

    /// The listeners who are given up unanswered when a block is imported: those of its parent, if
    /// it ceases to be an active leaf.
    pub open spec fn import_closed(self, block: BlockInfo, supported: bool) -> Seq<Listener> {
        if self.is_active(block.hash) {
            Seq::empty()
        } else {
            let next = self.with_leaf(block.hash, block.number).activated(
                block.hash,
                Some(block.parent_hash),
                supported,
            );
            if next.is_active(block.parent_hash) {
                next.listeners_of(block.parent_hash)
            } else {
                Seq::empty()
            }
        }
    }

    /// An import fits what is known: a leaf that is imported again has the number it had, and the
    /// parent, where it is an active leaf, has the number before the block's.
    pub open spec fn import_agrees(self, block: BlockInfo) -> bool {
        let leaves = self.active_leaves;
        if leaves.contains_key(block.hash) {
            leaves[block.hash] == block.number
        } else {
            let leaves = leaves.insert(block.hash, block.number);
            leaves.contains_key(block.parent_hash) ==> leaves[block.parent_hash]
                == block.number.saturating_sub(1)
        }
    }

    /// The active leaves whose number is not above `number`.
    pub open spec fn leaves_up_to(self, number: BlockNumber) -> Set<BlockHash> {
        Set::new(|h: BlockHash| self.is_active(h) && self.active_leaves[h] <= number)
    }

    /// A block with the given number was finalized: every leaf that is not above it is gone.
    pub open spec fn finalized(self, number: BlockNumber) -> OverseerState {
        let gone = self.leaves_up_to(number);
        OverseerState {
            active_leaves: self.active_leaves.remove_keys(gone),
            spans: self.spans.remove_keys(gone),
            listeners: self.listeners.remove_keys(gone),
            metrics: self.metrics.deactivated(gone.len()),
            ..self
        }
    }

    /// The listeners who are given up unanswered when a block with the given number is finalized:
    /// those of the leaves that are gone, under their hashes.
    pub open spec fn finality_closed(self, number: BlockNumber) -> Map<BlockHash, Seq<Listener>> {
        Map::new(
            |h: BlockHash|
                self.leaves_up_to(number).contains(h) && self.listeners_of(h).len() > 0,
            |h: BlockHash| self.listeners_of(h),
        )
    }

    /// The first `n` of the leaves to start with have been taken up.
    pub open spec fn started_up_to(self, n: int, supported: Seq<bool>) -> OverseerState
        decreases n,
    {
        if n <= 0 {
            OverseerState { leaves: Seq::empty(), ..self }
        } else {
            let (hash, number) = self.leaves[n - 1];
            self.started_up_to(n - 1, supported).with_leaf(hash, number).activated(
                hash,
                None,
                supported_at(supported, n - 1),
            )
        }
    }

    /// All leaves to start with have been taken up.
    pub open spec fn started(self, supported: Seq<bool>) -> OverseerState {
        self.started_up_to(self.leaves.len() as int, supported)
    }

    /// Those of the first `n` leaves to start with on which work starts.
    pub open spec fn started_leaves(self, n: int, supported: Seq<bool>) -> Seq<ActivatedLeaf>
        decreases n,
    {
        if n <= 0 {
            Seq::empty()
        } else {
            let before = self.started_leaves(n - 1, supported);
            let (hash, number) = self.leaves[n - 1];
            if supported_at(supported, n - 1) {
                before.push(ActivatedLeaf { hash, number, span: self.span_of(hash, None) })
            } else {
                before
            }
        }
    }

    /// What the start changes in the set of active leaves.
    pub open spec fn start_update(self, supported: Seq<bool>) -> UpdateView {
        UpdateView {
            activated: self.started_leaves(self.leaves.len() as int, supported),
            deactivated: Seq::empty(),
        }
    }

    /// The listeners who are answered when the `i`-th of the leaves to start with is taken up.
    pub open spec fn start_answers(self, i: int, supported: Seq<bool>) -> Seq<Listener> {
        self.started_up_to(i, supported).activation_answers(
            self.leaves[i].0,
            supported_at(supported, i),
        )
    }

    /// The listeners of `hash`.
    pub open spec fn listeners_of(self, hash: BlockHash) -> Seq<Listener> {
        if self.listeners.contains_key(hash) {
            self.listeners[hash]
        } else {
            Seq::empty()
        }
    }

    /// Somebody asked to be told when `hash` is active. Nothing is kept of it if it is already.
    pub open spec fn requested(self, hash: BlockHash, listener: Listener) -> OverseerState {
        if self.is_active(hash) {
            self
        } else {
            OverseerState {
                listeners: self.listeners.insert(hash, self.listeners_of(hash).push(listener)),
                ..self
            }
        }
    }

    /// The listeners who are marked in `canceled` are gone.
    pub open spec fn cleaned_up(self, canceled: Map<BlockHash, Seq<bool>>) -> OverseerState {
        OverseerState { listeners: without_canceled(self.listeners, canceled), ..self }
    }

    /// The listeners who are given up unanswered, under their hashes, when a block is imported
    /// and those who are marked in `canceled` are found to have gone.
    pub open spec fn import_given_up(
        self,
        block: BlockInfo,
        supported: bool,
        canceled: Map<BlockHash, Seq<bool>>,
    ) -> Map<BlockHash, Seq<Listener>> {
        let gone = only_canceled(self.imported(block, supported).listeners, canceled);
        let closed = self.import_closed(block, supported);
        if closed.len() > 0 {
            gone.insert(block.parent_hash, closed)
        } else {
            gone
        }
    }
}

} // verus!
