//! What the overseer broadcasts to the subsystems.

use vstd::prelude::*;

use crate::primitives::{BlockHash, BlockNumber};

verus! {

/// The name of the span that is opened when a leaf becomes active.
pub const LEAF_ACTIVATED: &'static str = "leaf-activated";

/// A tracing span: the piece of work that a leaf stands for.
#[derive(Clone, Copy, Debug, PartialEq, Eq)]
pub struct Span {
    /// The block that the span is about.
    pub hash: BlockHash,
    /// What the span covers.
    pub name: &'static str,
    /// The block whose span, open at the time, this one follows from.
    pub follows_from: Option<BlockHash>,
}

/// A leaf that has become active.
#[derive(Clone, Copy, Debug, PartialEq, Eq)]
pub struct ActivatedLeaf {
    /// Hash of the block.
    pub hash: BlockHash,
    /// The block's number.
    pub number: BlockNumber,
    /// The span of the work on this leaf.
    pub span: Span,
}

/// A change of the set of active leaves: those that became active and those that ceased to be.
#[derive(Debug, PartialEq, Eq)]
pub struct ActiveLeavesUpdate {
    /// New leaves.
    pub activated: Vec<ActivatedLeaf>,
    /// Hashes of the leaves that are no longer of interest.
    pub deactivated: Vec<BlockHash>,
}

/// The two lists of an [`ActiveLeavesUpdate`].
#[verifier::ext_equal]
pub struct UpdateView {
    pub activated: Seq<ActivatedLeaf>,
    pub deactivated: Seq<BlockHash>,
}

impl UpdateView {
    /// Nothing changed.
    pub open spec fn empty() -> UpdateView {
        UpdateView { activated: Seq::empty(), deactivated: Seq::empty() }
    }

    /// Whether nothing changed.
    pub open spec fn is_empty(self) -> bool {
        self.activated.len() == 0 && self.deactivated.len() == 0
    }
}

impl View for ActiveLeavesUpdate {
    type V = UpdateView;

    open spec fn view(&self) -> UpdateView {
        UpdateView { activated: self.activated@, deactivated: self.deactivated@ }
    }
}

impl Default for ActiveLeavesUpdate {
    /// An update that changes nothing.
    fn default() -> (update: Self)
        ensures
            update@ == UpdateView::empty(),
            update.activated@.len() == 0,
            update.deactivated@.len() == 0,
    {
        ActiveLeavesUpdate { activated: Vec::new(), deactivated: Vec::new() }
    }
}

impl ActiveLeavesUpdate {
    /// An update that activates one leaf and deactivates none.
    pub fn start_work(activated: ActivatedLeaf) -> (update: Self)
        ensures
            update@ == (UpdateView { activated: seq![activated], deactivated: Seq::empty() }),
            update.activated@.len() == 1,
            update.activated@[0] == activated,
            update.deactivated@.len() == 0,
    {
        let mut leaves: Vec<ActivatedLeaf> = Vec::new();
        leaves.push(activated);
        assert(leaves@ =~= seq![activated]);
        ActiveLeavesUpdate { activated: leaves, deactivated: Vec::new() }
    }

    /// Whether the update changes nothing.
    pub fn is_empty(&self) -> (empty: bool)
        ensures
            empty == self@.is_empty(),
            empty == (self.activated@.len() == 0 && self.deactivated@.len() == 0),
    {
        self.activated.is_empty() && self.deactivated.is_empty()
    }
}

/// A signal that goes to every subsystem.
#[derive(Debug, PartialEq, Eq)]
pub enum OverseerSignal {
    /// The set of active leaves has changed.
    ActiveLeaves(ActiveLeavesUpdate),
    /// A block was finalized.
    BlockFinalized(BlockHash, BlockNumber),
    /// Finish your work and shut down.
    Conclude,
}

/// A signal with the lists of its update.
pub enum SignalView {
    ActiveLeaves(UpdateView),
    BlockFinalized(BlockHash, BlockNumber),
    Conclude,
}

impl View for OverseerSignal {
    type V = SignalView;

    open spec fn view(&self) -> SignalView {
        match self {
            OverseerSignal::ActiveLeaves(update) => SignalView::ActiveLeaves(update@),
            OverseerSignal::BlockFinalized(hash, number) => SignalView::BlockFinalized(
                *hash,
                *number,
            ),
            OverseerSignal::Conclude => SignalView::Conclude,
        }
    }
}

/// The signals of a list.
pub open spec fn signals_of(signals: Seq<OverseerSignal>) -> Seq<SignalView> {
    signals.map_values(|s: OverseerSignal| s@)
}

/// What is broadcast for an update: nothing when it changes nothing.
pub open spec fn update_signals(update: UpdateView) -> Seq<SignalView> {
    if update.is_empty() {
        Seq::empty()
    } else {
        seq![SignalView::ActiveLeaves(update)]
    }
}

/// The signals to broadcast for an update: none when it changes nothing.
pub fn broadcast_update(update: ActiveLeavesUpdate) -> (signals: Vec<OverseerSignal>)
    ensures
        signals_of(signals@) == update_signals(update@),
        signals@.len() == 0 <==> update.activated@.len() == 0 && update.deactivated@.len() == 0,
        signals@.len() > 0 ==> signals@ == seq![OverseerSignal::ActiveLeaves(update)],
{
    let mut signals: Vec<OverseerSignal> = Vec::new();
    if !update.is_empty() {
        signals.push(OverseerSignal::ActiveLeaves(update));
    }
    assert(signals_of(signals@) =~= update_signals(update@));
    signals
}

} // verus!
