//! What every reaction to blocks and requests does to the leaves, their spans and their listeners,
//! hash by hash.

use futures::channel::oneshot::Sender;
use vstd::prelude::*;

use crate::error::SubsystemResult;
use crate::listeners::{
    answered, dead, live, only_canceled, reported, reports, sequences, without_canceled, Listener,
};
use crate::metrics::Metrics;
use crate::overseer::{
    all_answered, finality_outcome, import_outcome, leaves_of, said, start_outcome,
    HeadSupportsParachains,
};
use crate::primitives::{BlockHash, BlockInfo};
use crate::signal::{signals_of, update_signals, OverseerSignal, SignalView, UpdateView};
use crate::state::OverseerState;

verus! {

/// Whoever is answered has been sent `Ok(())`, and so has everybody in a list of which all are.
pub proof fn law_answer_is_success(listeners: Seq<Listener>, i: int)
    requires
        all_answered(listeners),
        0 <= i < listeners.len(),
    ensures
        answered(listeners[i]),
        exists|outcome: Result<(), SubsystemResult<()>>|
            call_ensures(Sender::<SubsystemResult<()>>::send, (listeners[i], Ok(())), outcome),
{
}

/// What the checker said of a head is what it returned when it was asked about that head.
pub proof fn law_checker_is_asked<C: HeadSupportsParachains>(
    checker: C,
    head: BlockHash,
    supported: bool,
)
    requires
        said(checker, head, supported),
    ensures
        call_ensures(C::head_supports_parachains, (&checker, &head), supported),
{
}

/// The marks of the listeners who have gone are what each of their channels returned when it was
/// asked, in the order in which the listeners stand.
pub proof fn law_channels_are_asked(
    listeners: Map<BlockHash, Seq<Listener>>,
    canceled: Map<BlockHash, Seq<bool>>,
    hash: BlockHash,
    i: int,
)
    requires
        reports(listeners, canceled),
        listeners.contains_key(hash),
        0 <= i < listeners[hash].len(),
    ensures
        canceled.contains_key(hash),
        canceled[hash].len() == listeners[hash].len(),
        call_ensures(
            Sender::<SubsystemResult<()>>::is_canceled,
            (&listeners[hash][i],),
            canceled[hash][i],
        ),
{
    assert(listeners.dom().contains(hash));
    assert(reported(listeners[hash][i], canceled[hash][i]));
}

/// The lists of a map of vectors are the contents of the vectors.
pub proof fn law_lists_are_contents<T>(lists: Map<BlockHash, Vec<T>>, hash: BlockHash)
    ensures
        sequences(lists).contains_key(hash) <==> lists.contains_key(hash),
        lists.contains_key(hash) ==> sequences(lists)[hash] == lists[hash]@,
{
}

/// The signals of a list are seen one for one, each with everything that it carries.
pub proof fn law_signals_are_seen_in_full(signals: Seq<OverseerSignal>, i: int)
    requires
        0 <= i < signals.len(),
    ensures
        signals_of(signals).len() == signals.len(),
        signals[i] matches OverseerSignal::ActiveLeaves(update) ==> {
            &&& signals_of(signals)[i] matches SignalView::ActiveLeaves(seen)
            &&& seen.activated == update.activated@
            &&& seen.deactivated == update.deactivated@
        },
        signals[i] matches OverseerSignal::BlockFinalized(hash, number) ==> signals_of(signals)[i]
            == SignalView::BlockFinalized(hash, number),
        signals[i] is Conclude ==> signals_of(signals)[i] is Conclude,
{
}

/// An update is broadcast as it is, in one signal, unless both its lists are empty. In that case
/// nothing is broadcast.
pub proof fn law_update_is_broadcast_once(update: UpdateView)
    ensures
        update_signals(update).len() == 0 <==> update.activated.len() == 0
            && update.deactivated.len() == 0,
        update_signals(update).len() <= 1,
        update_signals(update).len() == 1 ==> update_signals(update)[0]
            == SignalView::ActiveLeaves(update),
{
}

/// The leaves to start with are the given blocks, each with its own hash and number, in order.
pub proof fn law_leaves_are_the_blocks(blocks: Seq<BlockInfo>, i: int)
    requires
        0 <= i < blocks.len(),
    ensures
        leaves_of(blocks).len() == blocks.len(),
        leaves_of(blocks)[i].0 == blocks[i].hash,
        leaves_of(blocks)[i].1 == blocks[i].number,
{
}

/// Counting an activated head raises that count by one, modulo its range, and leaves the other
/// alone; likewise for deactivated heads.
pub proof fn law_heads_are_counted(metrics: Metrics, n: nat)
    ensures
        (metrics.activated().activated_heads_total - metrics.activated_heads_total - 1)
            % 0x1_0000_0000_0000_0000 == 0,
        metrics.activated().deactivated_heads_total == metrics.deactivated_heads_total,
        (metrics.deactivated(n).deactivated_heads_total - metrics.deactivated_heads_total - n)
            % 0x1_0000_0000_0000_0000 == 0,
        metrics.deactivated(n).activated_heads_total == metrics.activated_heads_total,
{
}

/// When a block agrees with the leaves that are known, an active leaf keeps its number, and an
/// active parent is one below the block; a block at the very bottom has a parent there too. When it
/// does not, one of these is broken.
pub proof fn law_agreement_is_about_numbers(s: OverseerState, block: BlockInfo)
    ensures
        s.active_leaves.contains_key(block.hash) ==> (s.import_agrees(block)
            <==> s.active_leaves[block.hash] == block.number),
        !s.active_leaves.contains_key(block.hash) && block.hash == block.parent_hash ==> (
        s.import_agrees(block) <==> block.number == 0),
        !s.active_leaves.contains_key(block.hash) && s.active_leaves.contains_key(block.parent_hash)
            ==> (s.import_agrees(block) <==> {
            ||| s.active_leaves[block.parent_hash] + 1 == block.number
            ||| s.active_leaves[block.parent_hash] == 0 && block.number == 0
        }),
        !s.active_leaves.contains_key(block.hash) && block.hash != block.parent_hash
            && !s.active_leaves.contains_key(block.parent_hash) ==> s.import_agrees(block),
{
}

/// The bookkeeping is in order exactly if every span is that of an active leaf, is about that leaf
/// and has nobody waiting for it, and no list of listeners is empty.
pub proof fn law_order_of_the_bookkeeping(s: OverseerState)
    ensures
        s.well_formed() <==> {
            &&& forall|h: BlockHash|
                s.spans.contains_key(h) ==> s.active_leaves.contains_key(h)
            &&& forall|h: BlockHash| s.spans.contains_key(h) ==> (#[trigger] s.spans[h]).hash == h
            &&& forall|h: BlockHash|
                !(s.spans.contains_key(h) && s.listeners.contains_key(h))
            &&& forall|h: BlockHash|
                s.listeners.contains_key(h) ==> (#[trigger] s.listeners[h]).len() > 0
        },
{
}

/// The span of a head that becomes active is about that head, is called a leaf's activation, and
/// follows from the parent's span exactly if the parent has one.
pub proof fn law_span_of_a_head(s: OverseerState, hash: BlockHash, parent: Option<BlockHash>)
    ensures
        s.span_of(hash, parent).hash == hash,
        s.span_of(hash, parent).name == "leaf-activated",
        parent matches Some(p) ==> (s.span_of(hash, parent).follows_from == (
        if s.spans.contains_key(p) {
            Some(p)
        } else {
            None
        })),
        parent is None ==> s.span_of(hash, parent).follows_from is None,
{
}

/// The activation of a head that supports parachains gives it a span, answers all who wait for it
/// and counts it. That of another head does nothing and answers nobody. Other hashes are left
/// alone either way, and so are the leaves.
pub proof fn law_head_activation(
    s: OverseerState,
    hash: BlockHash,
    parent: Option<BlockHash>,
    supported: bool,
    h: BlockHash,
)
    ensures
        s.activated(hash, parent, supported).active_leaves == s.active_leaves,
        s.activated(hash, parent, supported).leaves == s.leaves,
        supported ==> {
            let after = s.activated(hash, parent, true);
            &&& after.spans.contains_key(h) <==> h == hash || s.spans.contains_key(h)
            &&& after.spans[hash].hash == hash
            &&& after.spans[hash].name == "leaf-activated"
            &&& after.spans[hash].follows_from is Some <==> (parent matches Some(p)
                && s.spans.contains_key(p))
            &&& after.spans[hash].follows_from is Some ==> after.spans[hash].follows_from == parent
            &&& h != hash && s.spans.contains_key(h) ==> after.spans[h] == s.spans[h]
            &&& after.listeners.contains_key(h) <==> h != hash && s.listeners.contains_key(h)
            &&& after.listeners.contains_key(h) ==> after.listeners[h] == s.listeners[h]
            &&& (after.metrics.activated_heads_total - s.metrics.activated_heads_total - 1)
                % 0x1_0000_0000_0000_0000 == 0
            &&& after.metrics.deactivated_heads_total == s.metrics.deactivated_heads_total
            &&& s.listeners.contains_key(hash) ==> s.activation_answers(hash, true)
                == s.listeners[hash]
        },
        !supported || !s.listeners.contains_key(hash) ==> s.activation_answers(
            hash,
            supported,
        ).len() == 0,
        !supported ==> s.activated(hash, parent, false) == s,
{
    law_heads_are_counted(s.metrics, 1);
}

/// The deactivation of a head takes its span and its listeners away and counts it. Other hashes are
/// left alone.
pub proof fn law_head_deactivation(s: OverseerState, hash: BlockHash, h: BlockHash)
    ensures
        s.deactivated(hash).active_leaves == s.active_leaves,
        s.deactivated(hash).leaves == s.leaves,
        s.deactivated(hash).spans.contains_key(h) <==> h != hash && s.spans.contains_key(h),
        s.deactivated(hash).spans.contains_key(h) ==> s.deactivated(hash).spans[h] == s.spans[h],
        s.deactivated(hash).listeners.contains_key(h) <==> h != hash && s.listeners.contains_key(
            h,
        ),
        s.deactivated(hash).listeners.contains_key(h) ==> s.deactivated(hash).listeners[h]
            == s.listeners[h],
        (s.deactivated(hash).metrics.deactivated_heads_total - s.metrics.deactivated_heads_total
            - 1) % 0x1_0000_0000_0000_0000 == 0,
        s.deactivated(hash).metrics.activated_heads_total == s.metrics.activated_heads_total,
        s.listeners.contains_key(hash) ==> s.listeners_of(hash) == s.listeners[hash],
        !s.listeners.contains_key(hash) ==> s.listeners_of(hash).len() == 0,
{
    law_heads_are_counted(s.metrics, 1);
}

/// The import of a block that is no active leaf yet makes it one, under its own number, and takes
/// its parent out. All other leaves stay as they are.
pub proof fn law_import_makes_the_block_a_leaf(
    s: OverseerState,
    block: BlockInfo,
    supported: bool,
    h: BlockHash,
)
    requires
        !s.active_leaves.contains_key(block.hash),
    ensures
        s.imported(block, supported).active_leaves.contains_key(h) <==> {
            &&& h != block.parent_hash
            &&& h == block.hash || s.active_leaves.contains_key(h)
        },
        block.hash != block.parent_hash ==> s.imported(block, supported).active_leaves[block.hash]
            == block.number,
        h != block.hash && s.imported(block, supported).active_leaves.contains_key(h)
            ==> s.imported(block, supported).active_leaves[h] == s.active_leaves[h],
        s.imported(block, supported).leaves == s.leaves,
{
}

/// The import of a block that is no active leaf yet announces that block, with its own number and a
/// span about it, exactly if its head supports parachains. It announces the parent as deactivated
/// exactly if the parent was an active leaf or is the block itself. Nothing else is announced.
pub proof fn law_import_announces_the_block(s: OverseerState, block: BlockInfo, supported: bool)
    requires
        !s.active_leaves.contains_key(block.hash),
    ensures
        s.import_update(block, supported).activated.len() == (if supported {
            1int
        } else {
            0
        }),
        supported ==> {
            let leaf = s.import_update(block, true).activated[0];
            &&& leaf.hash == block.hash
            &&& leaf.number == block.number
            &&& leaf.span.hash == block.hash
            &&& leaf.span.name == "leaf-activated"
            &&& leaf.span.follows_from == (if s.spans.contains_key(block.parent_hash) {
                Some(block.parent_hash)
            } else {
                None
            })
        },
        s.import_update(block, supported).deactivated.len() == (if s.active_leaves.contains_key(
            block.parent_hash,
        ) || block.parent_hash == block.hash {
            1int
        } else {
            0
        }),
        s.import_update(block, supported).deactivated.len() == 1 ==> s.import_update(
            block,
            supported,
        ).deactivated[0] == block.parent_hash,
{
}

/// A leaf that an import announces is, unless it is its own parent, an active leaf afterwards under
/// the announced number, and the span that is kept of it is the announced one.
pub proof fn law_announced_leaf_is_kept(s: OverseerState, block: BlockInfo, supported: bool, i: int)
    requires
        block.hash != block.parent_hash,
        0 <= i < s.import_update(block, supported).activated.len(),
    ensures
        ({
            let leaf = s.import_update(block, supported).activated[i];
            let after = s.imported(block, supported);
            &&& after.active_leaves.contains_key(leaf.hash)
            &&& after.active_leaves[leaf.hash] == leaf.number
            &&& after.spans.contains_key(leaf.hash)
            &&& after.spans[leaf.hash] == leaf.span
            &&& leaf.span.hash == leaf.hash
        }),
{
}

/// The import of a block that is no active leaf yet gives it a span if its head supports
/// parachains, and takes the span of a parent that is deactivated. Other spans stay as they are.
pub proof fn law_import_moves_the_span(
    s: OverseerState,
    block: BlockInfo,
    supported: bool,
    h: BlockHash,
)
    requires
        !s.active_leaves.contains_key(block.hash),
    ensures
        h == block.parent_hash && (s.active_leaves.contains_key(h) || h == block.hash)
            ==> !s.imported(block, supported).spans.contains_key(h),
        h == block.hash && h != block.parent_hash && supported ==> s.imported(
            block,
            supported,
        ).spans.contains_key(h) && s.imported(block, supported).spans[h] == s.import_update(
            block,
            supported,
        ).activated[0].span,
        (h != block.hash || !supported) && !(h == block.parent_hash && (
        s.active_leaves.contains_key(h) || h == block.hash)) ==> {
            &&& s.imported(block, supported).spans.contains_key(h) <==> s.spans.contains_key(h)
            &&& s.spans.contains_key(h) ==> s.imported(block, supported).spans[h] == s.spans[h]
        },
{
}

/// The import of a block whose head supports parachains answers exactly those who wait for it, and
/// they wait no longer. The import of any other block answers nobody, and whoever waits for it goes
/// on waiting, unless it is its own parent.
pub proof fn law_import_answers_by_support(s: OverseerState, block: BlockInfo)
    requires
        !s.active_leaves.contains_key(block.hash),
    ensures
        s.listeners.contains_key(block.hash) ==> s.import_answers(block, true)
            == s.listeners[block.hash],
        !s.listeners.contains_key(block.hash) ==> s.import_answers(block, true).len() == 0,
        !s.imported(block, true).listeners.contains_key(block.hash),
        s.import_answers(block, false).len() == 0,
        block.hash != block.parent_hash ==> (s.imported(block, false).listeners.contains_key(
            block.hash,
        ) <==> s.listeners.contains_key(block.hash)),
        block.hash != block.parent_hash && s.listeners.contains_key(block.hash) ==> s.imported(
            block,
            false,
        ).listeners[block.hash] == s.listeners[block.hash],
{
}

/// Whether its head supports parachains or not, the import of a block hands back exactly those who
/// wait for a parent that is deactivated, except those whom it has just answered. Whoever waits for
/// yet another block goes on waiting.
pub proof fn law_import_hands_back_the_parents_listeners(
    s: OverseerState,
    block: BlockInfo,
    supported: bool,
    h: BlockHash,
)
    requires
        !s.active_leaves.contains_key(block.hash),
    ensures
        ({
            let parent = block.parent_hash;
            let gone = s.active_leaves.contains_key(parent) || parent == block.hash;
            let told = supported && parent == block.hash;
            &&& gone ==> !s.imported(block, supported).listeners.contains_key(parent)
            &&& gone && !told && s.listeners.contains_key(parent) ==> s.import_closed(
                block,
                supported,
            ) == s.listeners[parent]
            &&& !gone || told || !s.listeners.contains_key(parent) ==> s.import_closed(
                block,
                supported,
            ).len() == 0
            &&& h != block.hash && !(gone && h == parent) ==> {
                &&& s.imported(block, supported).listeners.contains_key(h)
                    <==> s.listeners.contains_key(h)
                &&& s.listeners.contains_key(h) ==> s.imported(block, supported).listeners[h]
                    == s.listeners[h]
            }
        }),
{
}

/// The import of a block counts one activated head if its head supports parachains, and one
/// deactivated head if the parent is deactivated.
pub proof fn law_import_is_counted(s: OverseerState, block: BlockInfo, supported: bool)
    requires
        !s.active_leaves.contains_key(block.hash),
    ensures
        (s.imported(block, supported).metrics.activated_heads_total
            - s.metrics.activated_heads_total - (if supported {
            1int
        } else {
            0
        })) % 0x1_0000_0000_0000_0000 == 0,
        (s.imported(block, supported).metrics.deactivated_heads_total
            - s.metrics.deactivated_heads_total - (if s.active_leaves.contains_key(
            block.parent_hash,
        ) || block.parent_hash == block.hash {
            1int
        } else {
            0
        })) % 0x1_0000_0000_0000_0000 == 0,
{
    law_heads_are_counted(s.metrics, 1);
    law_heads_are_counted(s.metrics.activated(), 1);
}

/// The import of an active leaf changes nothing, announces nothing, answers nobody and hands nobody
/// back.
pub proof fn law_import_of_a_leaf_does_nothing(s: OverseerState, block: BlockInfo, supported: bool)
    requires
        s.active_leaves.contains_key(block.hash),
    ensures
        s.imported(block, supported) == s,
        s.import_update(block, supported).activated.len() == 0,
        s.import_update(block, supported).deactivated.len() == 0,
        s.import_answers(block, supported).len() == 0,
        s.import_closed(block, supported).len() == 0,
{
}

/// The items that stay are those without a mark, in their order: `at` lists the places where they
/// stood.
pub proof fn law_unmarked_items_stay_in_order<T>(items: Seq<T>, canceled: Seq<bool>) -> (at: Seq<
    int,
>)
    ensures
        live(items, canceled).len() == at.len(),
        forall|j: int, k: int| 0 <= j < k < at.len() ==> #[trigger] at[j] < #[trigger] at[k],
        forall|k: int|
            0 <= k < at.len() ==> {
                &&& 0 <= #[trigger] at[k] < items.len()
                &&& !(at[k] < canceled.len() && canceled[at[k]])
                &&& live(items, canceled)[k] == items[at[k]]
            },
        forall|i: int|
            0 <= i < items.len() && !(i < canceled.len() && canceled[i]) ==> #[trigger] at.contains(
                i,
            ),
    decreases items.len(),
{
    if items.len() == 0 {
        Seq::empty()
    } else {
        let n = items.len() - 1;
        let before = law_unmarked_items_stay_in_order(items.drop_last(), canceled);
        if n < canceled.len() && canceled[n] {
            before
        } else {
            lemma_place_added(before, n);
            before.push(n)
        }
    }
}

/// The items that go are those with a mark, in their order: `at` lists the places where they stood.
pub proof fn law_marked_items_go_in_order<T>(items: Seq<T>, canceled: Seq<bool>) -> (at: Seq<int>)
    ensures
        dead(items, canceled).len() == at.len(),
        forall|j: int, k: int| 0 <= j < k < at.len() ==> #[trigger] at[j] < #[trigger] at[k],
        forall|k: int|
            0 <= k < at.len() ==> {
                &&& 0 <= #[trigger] at[k] < items.len()
                &&& at[k] < canceled.len() && canceled[at[k]]
                &&& dead(items, canceled)[k] == items[at[k]]
            },
        forall|i: int|
            0 <= i < items.len() && i < canceled.len() && canceled[i] ==> #[trigger] at.contains(i),
    decreases items.len(),
{
    if items.len() == 0 {
        Seq::empty()
    } else {
        let n = items.len() - 1;
        let before = law_marked_items_go_in_order(items.drop_last(), canceled);
        if n < canceled.len() && canceled[n] {
            lemma_place_added(before, n);
            before.push(n)
        } else {
            before
        }
    }
}

/// One more place in a list of places.
pub proof fn lemma_place_added(at: Seq<int>, n: int)
    ensures
        at.push(n).contains(n),
        forall|i: int| at.contains(i) ==> #[trigger] at.push(n).contains(i),
{
    assert(at.push(n)[at.len() as int] == n);
    assert forall|i: int| at.contains(i) implies #[trigger] at.push(n).contains(i) by {
        let k = choose|k: int| 0 <= k < at.len() && at[k] == i;
        assert(at.push(n)[k] == i);
    }
}

/// The removal of listeners who have gone goes by the marks of their own hash, or leaves the list
/// alone if the hash has none. A hash occurs on either side exactly if it has somebody there.
/// Nothing but the listeners changes.
pub proof fn law_marks_decide_hash_by_hash(
    s: OverseerState,
    canceled: Map<BlockHash, Seq<bool>>,
    h: BlockHash,
)
    ensures
        s.cleaned_up(canceled).listeners == without_canceled(s.listeners, canceled),
        s.cleaned_up(canceled).active_leaves == s.active_leaves,
        s.cleaned_up(canceled).spans == s.spans,
        s.cleaned_up(canceled).leaves == s.leaves,
        s.cleaned_up(canceled).metrics == s.metrics,
        !s.listeners.contains_key(h) ==> {
            &&& !without_canceled(s.listeners, canceled).contains_key(h)
            &&& !only_canceled(s.listeners, canceled).contains_key(h)
        },
        s.listeners.contains_key(h) && canceled.contains_key(h) ==> {
            &&& without_canceled(s.listeners, canceled).contains_key(h) <==> live(
                s.listeners[h],
                canceled[h],
            ).len() > 0
            &&& without_canceled(s.listeners, canceled).contains_key(h) ==> without_canceled(
                s.listeners,
                canceled,
            )[h] == live(s.listeners[h], canceled[h])
            &&& only_canceled(s.listeners, canceled).contains_key(h) <==> dead(
                s.listeners[h],
                canceled[h],
            ).len() > 0
            &&& only_canceled(s.listeners, canceled).contains_key(h) ==> only_canceled(
                s.listeners,
                canceled,
            )[h] == dead(s.listeners[h], canceled[h])
        },
        s.listeners.contains_key(h) && !canceled.contains_key(h) ==> {
            &&& !only_canceled(s.listeners, canceled).contains_key(h)
            &&& s.listeners[h].len() > 0 ==> {
                &&& without_canceled(s.listeners, canceled).contains_key(h)
                &&& without_canceled(s.listeners, canceled)[h] == s.listeners[h]
            }
        },
{
    if s.listeners.contains_key(h) && !canceled.contains_key(h) {
        lemma_without_marks(s.listeners[h]);
    }
}

proof fn lemma_without_marks<T>(items: Seq<T>)
    ensures
        live(items, Seq::empty()) == items,
        dead(items, Seq::empty()).len() == 0,
    decreases items.len(),
{
    if items.len() > 0 {
        lemma_without_marks(items.drop_last());
        assert(items.drop_last().push(items.last()) =~= items);
    }
}

/// Those who are handed back by an import are those found to have gone afterwards and the
/// listeners of a deactivated parent, if there are any.
pub proof fn law_import_hands_back_two_kinds(
    s: OverseerState,
    block: BlockInfo,
    supported: bool,
    canceled: Map<BlockHash, Seq<bool>>,
    h: BlockHash,
)
    ensures
        ({
            let gone = only_canceled(s.imported(block, supported).listeners, canceled);
            let handed_back = s.import_given_up(block, supported, canceled);
            let parents = s.import_closed(block, supported);
            &&& handed_back.contains_key(h) <==> gone.contains_key(h) || h == block.parent_hash
                && parents.len() > 0
            &&& h == block.parent_hash && parents.len() > 0 ==> handed_back[h] == parents
            &&& !(h == block.parent_hash && parents.len() > 0) && gone.contains_key(h)
                ==> handed_back[h] == gone[h]
        }),
{
}

/// Whatever comes of the import of a block, it comes of what the checker returned for that block
/// and of what the channels returned afterwards. If the block is no active leaf yet, the one signal
/// there may be tells subsystems of the block under its own number if it is supported, and of the
/// parent if it is deactivated; there is no signal if neither is the case. Whoever waits for a
/// supported block has been sent `Ok(())`. If it is an active leaf already, nothing comes of it.
pub proof fn law_import_comes_to_this<C: HeadSupportsParachains>(
    checker: C,
    before: OverseerState,
    block: BlockInfo,
    after: OverseerState,
    signals: Seq<SignalView>,
    closed: Map<BlockHash, Seq<Listener>>,
)
    requires
        import_outcome(checker, before, block, after, signals, closed),
    ensures
        before.active_leaves.contains_key(block.hash) ==> {
            &&& after == before
            &&& signals.len() == 0
            &&& forall|h: BlockHash| !closed.contains_key(h)
        },
        !before.active_leaves.contains_key(block.hash) ==> exists|
            supported: bool,
            canceled: Map<BlockHash, Seq<bool>>,
        |
            {
                let gone = before.active_leaves.contains_key(block.parent_hash) || block.parent_hash
                    == block.hash;
                &&& call_ensures(
                    C::head_supports_parachains,
                    (&checker, &block.hash),
                    supported,
                )
                &&& #[trigger] reports(before.imported(block, supported).listeners, canceled)
                &&& after == before.imported(block, supported).cleaned_up(canceled)
                &&& closed == before.import_given_up(block, supported, canceled)
                &&& signals.len() == (if supported || gone {
                    1int
                } else {
                    0
                })
                &&& supported || gone ==> {
                    &&& signals[0] matches SignalView::ActiveLeaves(update)
                    &&& update.activated.len() == (if supported {
                        1int
                    } else {
                        0
                    })
                    &&& supported ==> {
                        &&& update.activated[0].hash == block.hash
                        &&& update.activated[0].number == block.number
                        &&& update.activated[0].span.hash == block.hash
                    }
                    &&& update.deactivated.len() == (if gone {
                        1int
                    } else {
                        0
                    })
                    &&& gone ==> update.deactivated[0] == block.parent_hash
                }
                &&& supported && before.listeners.contains_key(block.hash) ==> forall|i: int|
                    0 <= i < before.listeners[block.hash].len() ==> answered(
                        #[trigger] before.listeners[block.hash][i],
                    )
            },
{
    if !before.active_leaves.contains_key(block.hash) {
        let (supported, canceled): (bool, Map<BlockHash, Seq<bool>>) =
            choose|supported: bool, canceled: Map<BlockHash, Seq<bool>>|
            {
                &&& said(checker, block.hash, supported)
                &&& #[trigger] reports(before.imported(block, supported).listeners, canceled)
                &&& after == before.imported(block, supported).cleaned_up(canceled)
                &&& signals == update_signals(before.import_update(block, supported))
                &&& all_answered(before.import_answers(block, supported))
                &&& closed == before.import_given_up(block, supported, canceled)
            };
        law_import_announces_the_block(before, block, supported);
        law_import_answers_by_support(before, block);
        assert(reports(before.imported(block, supported).listeners, canceled));
    }
}

/// Whatever comes of the finality of a block: an active leaf is gone, with its span, exactly if its
/// number is not above the block's; whoever waited for it is handed back, and nobody else. The
/// first signal is about the block itself. A second one names the leaves that are gone, each once,
/// and no others; it is there exactly if there are such leaves. As many deactivated heads are
/// counted.
pub proof fn law_finality_comes_to_this(
    before: OverseerState,
    block: BlockInfo,
    after: OverseerState,
    signals: Seq<SignalView>,
    closed: Map<BlockHash, Seq<Listener>>,
    h: BlockHash,
)
    requires
        finality_outcome(before, block, after, signals, closed),
    ensures
        ({
            let gone = before.active_leaves.contains_key(h) && before.active_leaves[h]
                <= block.number;
            &&& after.active_leaves.contains_key(h) <==> before.active_leaves.contains_key(h)
                && !gone
            &&& after.active_leaves.contains_key(h) ==> after.active_leaves[h]
                == before.active_leaves[h]
            &&& after.spans.contains_key(h) <==> before.spans.contains_key(h) && !gone
            &&& after.spans.contains_key(h) ==> after.spans[h] == before.spans[h]
            &&& after.listeners.contains_key(h) <==> before.listeners.contains_key(h) && !gone
            &&& after.listeners.contains_key(h) ==> after.listeners[h] == before.listeners[h]
            &&& closed.contains_key(h) <==> gone && before.listeners.contains_key(h)
                && before.listeners[h].len() > 0
            &&& closed.contains_key(h) ==> closed[h] == before.listeners[h]
            &&& gone ==> signals.len() == 2
            &&& signals.len() == 2 ==> {
                &&& signals[1] matches SignalView::ActiveLeaves(update)
                &&& update.activated.len() == 0
                &&& update.deactivated.len() > 0
                &&& update.deactivated.no_duplicates()
                &&& update.deactivated.contains(h) <==> gone
                &&& (after.metrics.deactivated_heads_total - before.metrics.deactivated_heads_total
                    - update.deactivated.len()) % 0x1_0000_0000_0000_0000 == 0
            }
        }),
        signals.len() == 1 || signals.len() == 2,
        signals[0] == SignalView::BlockFinalized(block.hash, block.number),
        signals.len() == 1 ==> after.metrics.deactivated_heads_total
            == before.metrics.deactivated_heads_total,
        after.metrics.activated_heads_total == before.metrics.activated_heads_total,
        after.leaves == before.leaves,
{
    let gone = choose|gone: Seq<BlockHash>|
        {
            &&& #[trigger] gone.no_duplicates()
            &&& gone.to_set() == before.leaves_up_to(block.number)
            &&& signals == seq![SignalView::BlockFinalized(block.hash, block.number)]
                + update_signals(UpdateView { activated: Seq::empty(), deactivated: gone })
        };
    gone.unique_seq_to_set();
    assert(gone.to_set().contains(h) <==> gone.contains(h));
    law_heads_are_counted(before.metrics, gone.len());
    if gone.len() == 0 {
        law_heads_are_counted(before.metrics, 0);
    }
}

/// The start makes every leaf that it was given an active one. A leaf that was given once is
/// active under the number that it was given with, and one that was not given keeps what it had.
pub proof fn law_start_makes_the_leaves_active(s: OverseerState, supported: Seq<bool>, h: BlockHash)
    ensures
        s.started(supported).leaves.len() == 0,
        s.started(supported).active_leaves.contains_key(h) <==> {
            ||| s.active_leaves.contains_key(h)
            ||| exists|i: int| 0 <= i < s.leaves.len() && (#[trigger] s.leaves[i]).0 == h
        },
        forall|i: int|
            0 <= i < s.leaves.len() && (#[trigger] s.leaves[i]).0 == h && (forall|j: int|
                i < j < s.leaves.len() ==> (#[trigger] s.leaves[j]).0 != h) ==> s.started(
                supported,
            ).active_leaves[h] == s.leaves[i].1,
        (forall|i: int| 0 <= i < s.leaves.len() ==> (#[trigger] s.leaves[i]).0 != h)
            && s.active_leaves.contains_key(h) ==> s.started(supported).active_leaves[h]
            == s.active_leaves[h],
{
    lemma_started_leaves(s, s.leaves.len() as int, supported, h);
}

proof fn lemma_started_leaves(s: OverseerState, n: int, supported: Seq<bool>, h: BlockHash)
    requires
        0 <= n <= s.leaves.len(),
    ensures
        s.started_up_to(n, supported).leaves.len() == 0,
        s.started_up_to(n, supported).active_leaves.contains_key(h) <==> {
            ||| s.active_leaves.contains_key(h)
            ||| exists|i: int| 0 <= i < n && (#[trigger] s.leaves[i]).0 == h
        },
        forall|i: int|
            0 <= i < n && (#[trigger] s.leaves[i]).0 == h && (forall|j: int|
                i < j < n ==> (#[trigger] s.leaves[j]).0 != h) ==> s.started_up_to(
                n,
                supported,
            ).active_leaves[h] == s.leaves[i].1,
        (forall|i: int| 0 <= i < n ==> (#[trigger] s.leaves[i]).0 != h)
            && s.active_leaves.contains_key(h) ==> s.started_up_to(n, supported).active_leaves[h]
            == s.active_leaves[h],
    decreases n,
{
    if n > 0 {
        lemma_started_leaves(s, n - 1, supported, h);
        assert(s.leaves[n - 1].0 == h ==> s.started_up_to(n, supported).active_leaves[h]
            == s.leaves[n - 1].1);
    }
}

/// The start announces exactly those of the leaves that it was given whose heads support
/// parachains, in their order, each with its own number and a span about it that follows from
/// none: `at` lists the places where they stood. It deactivates none, and counts as many activated
/// heads as it announces.
pub proof fn law_start_announces_the_supported_leaves(s: OverseerState, supported: Seq<bool>) -> (at:
    Seq<int>)
    ensures
        s.start_update(supported).deactivated.len() == 0,
        s.start_update(supported).activated.len() == at.len(),
        forall|j: int, k: int| 0 <= j < k < at.len() ==> #[trigger] at[j] < #[trigger] at[k],
        forall|k: int|
            0 <= k < at.len() ==> {
                let leaf = s.start_update(supported).activated[k];
                &&& 0 <= #[trigger] at[k] < s.leaves.len()
                &&& at[k] < supported.len() && supported[at[k]]
                &&& leaf.hash == s.leaves[at[k]].0
                &&& leaf.number == s.leaves[at[k]].1
                &&& leaf.span.hash == leaf.hash
                &&& leaf.span.name == "leaf-activated"
                &&& leaf.span.follows_from is None
            },
        forall|i: int|
            0 <= i < s.leaves.len() && i < supported.len() && supported[i]
                ==> #[trigger] at.contains(i),
        (s.started(supported).metrics.activated_heads_total - s.metrics.activated_heads_total
            - at.len()) % 0x1_0000_0000_0000_0000 == 0,
        s.started(supported).metrics.deactivated_heads_total == s.metrics.deactivated_heads_total,
{
    lemma_start_announces(s, s.leaves.len() as int, supported)
}

proof fn lemma_start_announces(s: OverseerState, n: int, supported: Seq<bool>) -> (at: Seq<int>)
    requires
        0 <= n <= s.leaves.len(),
    ensures
        s.started_leaves(n, supported).len() == at.len(),
        forall|j: int, k: int| 0 <= j < k < at.len() ==> #[trigger] at[j] < #[trigger] at[k],
        forall|k: int|
            0 <= k < at.len() ==> {
                let leaf = s.started_leaves(n, supported)[k];
                &&& 0 <= #[trigger] at[k] < n
                &&& at[k] < supported.len() && supported[at[k]]
                &&& leaf.hash == s.leaves[at[k]].0
                &&& leaf.number == s.leaves[at[k]].1
                &&& leaf.span.hash == leaf.hash
                &&& leaf.span.name == "leaf-activated"
                &&& leaf.span.follows_from is None
            },
        forall|i: int|
            0 <= i < n && i < supported.len() && supported[i] ==> #[trigger] at.contains(i),
        (s.started_up_to(n, supported).metrics.activated_heads_total
            - s.metrics.activated_heads_total - at.len()) % 0x1_0000_0000_0000_0000 == 0,
        s.started_up_to(n, supported).metrics.deactivated_heads_total
            == s.metrics.deactivated_heads_total,
    decreases n,
{
    if n == 0 {
        Seq::empty()
    } else {
        let before = lemma_start_announces(s, n - 1, supported);
        if n - 1 < supported.len() && supported[n - 1] {
            lemma_place_added(before, n - 1);
            law_heads_are_counted(s.started_up_to(n - 1, supported).metrics, 1);
            before.push(n - 1)
        } else {
            before
        }
    }
}

/// The start gives a span to every leaf that it was given whose head supports parachains, and
/// nobody waits for such a leaf afterwards. All other hashes keep their spans and their listeners.
pub proof fn law_start_by_hash(s: OverseerState, supported: Seq<bool>, h: BlockHash)
    ensures
        ({
            let starts = exists|i: int|
                0 <= i < s.leaves.len() && (#[trigger] s.leaves[i]).0 == h && i < supported.len()
                    && supported[i];
            let after = s.started(supported);
            &&& starts ==> {
                &&& after.spans.contains_key(h)
                &&& after.spans[h].hash == h
                &&& after.spans[h].name == "leaf-activated"
                &&& after.spans[h].follows_from is None
                &&& !after.listeners.contains_key(h)
            }
            &&& !starts ==> {
                &&& after.spans.contains_key(h) <==> s.spans.contains_key(h)
                &&& s.spans.contains_key(h) ==> after.spans[h] == s.spans[h]
                &&& after.listeners.contains_key(h) <==> s.listeners.contains_key(h)
                &&& s.listeners.contains_key(h) ==> after.listeners[h] == s.listeners[h]
            }
        }),
{
    lemma_start_by_hash(s, s.leaves.len() as int, supported, h);
}

proof fn lemma_start_by_hash(s: OverseerState, n: int, supported: Seq<bool>, h: BlockHash)
    requires
        0 <= n <= s.leaves.len(),
    ensures
        ({
            let starts = exists|i: int|
                0 <= i < n && (#[trigger] s.leaves[i]).0 == h && i < supported.len()
                    && supported[i];
            let after = s.started_up_to(n, supported);
            &&& starts ==> {
                &&& after.spans.contains_key(h)
                &&& after.spans[h].hash == h
                &&& after.spans[h].name == "leaf-activated"
                &&& after.spans[h].follows_from is None
                &&& !after.listeners.contains_key(h)
            }
            &&& !starts ==> {
                &&& after.spans.contains_key(h) <==> s.spans.contains_key(h)
                &&& s.spans.contains_key(h) ==> after.spans[h] == s.spans[h]
                &&& after.listeners.contains_key(h) <==> s.listeners.contains_key(h)
                &&& s.listeners.contains_key(h) ==> after.listeners[h] == s.listeners[h]
            }
        }),
    decreases n,
{
    if n > 0 {
        lemma_start_by_hash(s, n - 1, supported, h);
        let starts_now = s.leaves[n - 1].0 == h && n - 1 < supported.len() && supported[n - 1];
        if starts_now {
            assert(s.started_up_to(n, supported).spans.contains_key(h));
        } else {
            assert(s.started_up_to(n, supported).spans.contains_key(h) <==> s.started_up_to(
                n - 1,
                supported,
            ).spans.contains_key(h));
        }
    }
}

/// Whoever waits at the start for a leaf that it was given whose head supports parachains is among
/// those whom the start answers.
pub proof fn law_start_answers_whoever_waits(
    s: OverseerState,
    supported: Seq<bool>,
    i: int,
    listener: Listener,
)
    requires
        0 <= i < s.leaves.len(),
        i < supported.len() && supported[i],
        s.listeners.contains_key(s.leaves[i].0),
        s.listeners[s.leaves[i].0].contains(listener),
    ensures
        exists|k: int|
            0 <= k < s.leaves.len() && (#[trigger] s.start_answers(k, supported)).contains(listener),
{
    lemma_start_answers(s, i + 1, supported, i, listener);
}

proof fn lemma_start_answers(
    s: OverseerState,
    n: int,
    supported: Seq<bool>,
    i: int,
    listener: Listener,
)
    requires
        0 <= i < n <= s.leaves.len(),
        i < supported.len() && supported[i],
        s.listeners.contains_key(s.leaves[i].0),
        s.listeners[s.leaves[i].0].contains(listener),
    ensures
        exists|k: int|
            0 <= k < n && (#[trigger] s.start_answers(k, supported)).contains(listener),
    decreases n,
{
    let h = s.leaves[i].0;
    lemma_start_by_hash(s, i, supported, h);
    if exists|j: int|
        0 <= j < i && (#[trigger] s.leaves[j]).0 == h && j < supported.len() && supported[j] {
        let j = choose|j: int|
            0 <= j < i && (#[trigger] s.leaves[j]).0 == h && j < supported.len() && supported[j];
        lemma_start_answers(s, i, supported, j, listener);
    } else {
        assert(s.start_answers(i, supported) == s.listeners[h]);
    }
}

/// The start answers nobody but those who wait for a leaf that it was given whose head supports
/// parachains.
pub proof fn law_start_answers_nobody_else(
    s: OverseerState,
    supported: Seq<bool>,
    i: int,
    listener: Listener,
)
    requires
        0 <= i < s.leaves.len(),
        s.start_answers(i, supported).contains(listener),
    ensures
        i < supported.len() && supported[i],
        s.listeners.contains_key(s.leaves[i].0),
        s.listeners[s.leaves[i].0].contains(listener),
{
    lemma_start_by_hash(s, i, supported, s.leaves[i].0);
}

/// Whatever comes of the start, it comes of what the checker returned for each of the leaves. The
/// one signal there may be announces leaves as activated and none as deactivated; there is none if
/// the checker supports no leaf. Everybody whom the start answers has been sent `Ok(())`.
pub proof fn law_start_comes_to_this<C: HeadSupportsParachains>(
    checker: C,
    before: OverseerState,
    after: OverseerState,
    signals: Seq<SignalView>,
)
    requires
        start_outcome(checker, before, after, signals),
    ensures
        exists|supported: Seq<bool>|
            {
                &&& #[trigger] supported.len() == before.leaves.len()
                &&& forall|i: int|
                    0 <= i < supported.len() ==> call_ensures(
                        C::head_supports_parachains,
                        (&checker, &(#[trigger] before.leaves[i]).0),
                        supported[i],
                    )
                &&& after == before.started(supported)
                &&& signals.len() <= 1
                &&& signals.len() == 0 <==> forall|i: int|
                    0 <= i < supported.len() ==> !#[trigger] supported[i]
                &&& signals.len() == 1 ==> {
                    &&& signals[0] matches SignalView::ActiveLeaves(update)
                    &&& update.activated == before.start_update(supported).activated
                    &&& update.deactivated.len() == 0
                }
                &&& forall|i: int, k: int|
                    0 <= i < before.leaves.len() && 0 <= k < before.start_answers(
                        i,
                        supported,
                    ).len() ==> answered(#[trigger] before.start_answers(i, supported)[k])
            },
{
    let supported = choose|supported: Seq<bool>|
        {
            &&& #[trigger] supported.len() == before.leaves.len()
            &&& forall|i: int|
                0 <= i < supported.len() ==> said(
                    checker,
                    (#[trigger] before.leaves[i]).0,
                    supported[i],
                )
            &&& after == before.started(supported)
            &&& signals == update_signals(before.start_update(supported))
            &&& forall|i: int|
                0 <= i < before.leaves.len() ==> all_answered(
                    #[trigger] before.start_answers(i, supported),
                )
        };
    let at = law_start_announces_the_supported_leaves(before, supported);
    assert forall|i: int| 0 <= i < supported.len() implies call_ensures(
        C::head_supports_parachains,
        (&checker, &(#[trigger] before.leaves[i]).0),
        supported[i],
    ) by {
        assert(said(checker, before.leaves[i].0, supported[i]));
    }
    if at.len() == 0 {
        assert forall|i: int| 0 <= i < supported.len() implies !#[trigger] supported[i] by {
            if supported[i] {
                assert(at.contains(i));
            }
        }
    } else {
        assert(supported[at[0]]);
    }
    assert(supported.len() == before.leaves.len());
}

/// A request for a block that is no active leaf puts the listener last among those who wait for
/// it. A request for an active leaf leaves nothing behind. Those who wait for other blocks are left
/// alone, and so is everything else.
pub proof fn law_request_joins_the_queue(
    s: OverseerState,
    hash: BlockHash,
    listener: Listener,
    h: BlockHash,
)
    ensures
        s.active_leaves.contains_key(hash) ==> s.requested(hash, listener) == s,
        !s.active_leaves.contains_key(hash) ==> {
            let after = s.requested(hash, listener);
            let others = if s.listeners.contains_key(hash) {
                s.listeners[hash].len()
            } else {
                0
            };
            &&& after.listeners.contains_key(hash)
            &&& after.listeners[hash].len() == others + 1
            &&& after.listeners[hash].last() == listener
            &&& s.listeners.contains_key(hash) ==> after.listeners[hash].drop_last()
                == s.listeners[hash]
            &&& h != hash ==> (after.listeners.contains_key(h) <==> s.listeners.contains_key(h))
            &&& h != hash && s.listeners.contains_key(h) ==> after.listeners[h] == s.listeners[h]
        },
        s.requested(hash, listener).active_leaves == s.active_leaves,
        s.requested(hash, listener).spans == s.spans,
        s.requested(hash, listener).leaves == s.leaves,
        s.requested(hash, listener).metrics == s.metrics,
{
    if s.listeners.contains_key(hash) {
        assert(s.listeners[hash].push(listener).drop_last() =~= s.listeners[hash]);
    }
}

} // verus!
