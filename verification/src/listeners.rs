//! Those outside the overseer who wait for a block to become an active leaf.

use futures::channel::oneshot::Sender;
use vstd::prelude::*;

use crate::error::SubsystemResult;
use crate::leaf_map::LeafMap;
use crate::primitives::BlockHash;

verus! {

/// The channel on which one listener is told that its block is active.
pub type Listener = Sender<SubsystemResult<()>>;

/// `futures::channel::oneshot::Sender`: the sending half of a channel for one value. What is
/// inside, and whether its receiver still exists, is not visible here.
#[verifier::external_type_specification]
#[verifier::external_body]
#[verifier::reject_recursive_types(T)]
pub struct ExSender<T>(Sender<T>);

/// `futures::channel::oneshot::Sender::send`: hands a value to the receiver and uses the sender
/// up. When the receiver is gone the value comes back as the error. Whether it is gone depends
/// on the other side of the channel, so nothing is claimed of when the call succeeds.
pub assume_specification<T>[ Sender::<T>::send ](sender: Sender<T>, t: T) -> (outcome: Result<
    (),
    T,
>)
    ensures
        outcome matches Err(returned) ==> returned == t,
;

/// `futures::channel::oneshot::Sender::is_canceled`: whether the receiver is gone by now. That
/// depends on the other side of the channel, so nothing is claimed of the result.
pub assume_specification<T>[ Sender::<T>::is_canceled ](sender: &Sender<T>) -> (canceled: bool);

/// `Ok(())` has been sent to the listener. Whether it arrived is the listener's affair.
pub open spec fn answered(listener: Listener) -> bool {
    exists|outcome: Result<(), SubsystemResult<()>>|
        call_ensures(Sender::<SubsystemResult<()>>::send, (listener, Ok(())), outcome)
}

/// `canceled` is what the channel said when it was asked whether the listener is gone.
pub open spec fn reported(listener: Listener, canceled: bool) -> bool {
    call_ensures(Sender::<SubsystemResult<()>>::is_canceled, (&listener,), canceled)
}

/// A map of vectors as a map of sequences.
pub open spec fn sequences<T>(lists: Map<BlockHash, Vec<T>>) -> Map<BlockHash, Seq<T>> {
    lists.map_values(|list: Vec<T>| list@)
}

/// `canceled` holds one report for every listener in `listeners`.
pub open spec fn reports(
    listeners: Map<BlockHash, Seq<Listener>>,
    canceled: Map<BlockHash, Seq<bool>>,
) -> bool {
    &&& canceled.dom() == listeners.dom()
    &&& forall|h: BlockHash| #[trigger]
        listeners.contains_key(h) ==> canceled[h].len() == listeners[h].len()
    &&& forall|h: BlockHash, i: int|
        listeners.contains_key(h) && 0 <= i < listeners[h].len() ==> reported(
            #[trigger] listeners[h][i],
            canceled[h][i],
        )
}

/// The items of `items` that are not marked in `canceled`, in order. An item without a mark
/// stays.
pub open spec fn live<T>(items: Seq<T>, canceled: Seq<bool>) -> Seq<T>
    decreases items.len(),
{
    if items.len() == 0 {
        Seq::empty()
    } else {
        let kept = live(items.drop_last(), canceled);
        let last = items.len() - 1;
        if last < canceled.len() && canceled[last] {
            kept
        } else {
            kept.push(items.last())
        }
    }
}

/// The items of `items` that are marked in `canceled`, in order.
pub open spec fn dead<T>(items: Seq<T>, canceled: Seq<bool>) -> Seq<T>
    decreases items.len(),
{
    if items.len() == 0 {
        Seq::empty()
    } else {
        let gone = dead(items.drop_last(), canceled);
        let last = items.len() - 1;
        if last < canceled.len() && canceled[last] {
            gone.push(items.last())
        } else {
            gone
        }
    }
}

/// The marks of `hash`; none if `canceled` lacks it.
pub open spec fn marks(canceled: Map<BlockHash, Seq<bool>>, hash: BlockHash) -> Seq<bool> {
    if canceled.contains_key(hash) {
        canceled[hash]
    } else {
        Seq::empty()
    }
}

/// `lists` without the items that are marked in `canceled` and without the hashes that are left
/// with no item.
pub open spec fn without_canceled<T>(
    lists: Map<BlockHash, Seq<T>>,
    canceled: Map<BlockHash, Seq<bool>>,
) -> Map<BlockHash, Seq<T>> {
    Map::new(
        |h: BlockHash| lists.contains_key(h) && live(lists[h], marks(canceled, h)).len() > 0,
        |h: BlockHash| live(lists[h], marks(canceled, h)),
    )
}

/// The items of `lists` that are marked in `canceled`, under their hashes. A hash without such an
/// item does not occur.
pub open spec fn only_canceled<T>(
    lists: Map<BlockHash, Seq<T>>,
    canceled: Map<BlockHash, Seq<bool>>,
) -> Map<BlockHash, Seq<T>> {
    Map::new(
        |h: BlockHash| lists.contains_key(h) && dead(lists[h], marks(canceled, h)).len() > 0,
        |h: BlockHash| dead(lists[h], marks(canceled, h)),
    )
}

/// Tells one listener that its block is active. It's fine if the listener is no longer
/// interested.
pub fn answer(listener: Listener)
    ensures
        answered(listener),
{
    let _ = listener.send(Ok(()));
}

/// Tells every listener in the list that its block is active.
pub fn answer_all(listeners: Vec<Listener>)
    ensures
        forall|i: int| 0 <= i < listeners@.len() ==> answered(#[trigger] listeners@[i]),
{
    for listener in iter: listeners
        invariant
            iter.seq() == listeners@,
            forall|i: int| 0 <= i < iter.index() ==> answered(#[trigger] listeners@[i]),
    {
        answer(listener);
    }
}

/// Parts the items of the list that are not marked in `canceled` from those that are. Both keep
/// their order.
pub fn part_live<T>(items: Vec<T>, canceled: &Vec<bool>) -> (parts: (Vec<T>, Vec<T>))
    ensures
        parts.0@ == live(items@, canceled@),
        parts.1@ == dead(items@, canceled@),
{
    let mut kept: Vec<T> = Vec::new();
    let mut gone: Vec<T> = Vec::new();
    let mut at: usize = 0;
    let count = items.len();
    let ghost all = items@;
    for item in iter: items
        invariant
            iter.seq() == all,
            at == iter.index(),
            count == all.len(),
            kept@ == live(all.take(iter.index()), canceled@),
            gone@ == dead(all.take(iter.index()), canceled@),
    {
        assert(all.take(at + 1).drop_last() =~= all.take(at as int));
        if at < canceled.len() && canceled[at] {
            gone.push(item);
        } else {
            kept.push(item);
        }
        at += 1;
    }
    assert(all.take(all.len() as int) =~= all);
    (kept, gone)
}

/// Asks for every listener whether it is gone.
pub fn poll_canceled(listeners: &LeafMap<Vec<Listener>>) -> (canceled: LeafMap<Vec<bool>>)
    ensures
        reports(sequences(listeners@), sequences(canceled@)),
{
    let mut canceled: LeafMap<Vec<bool>> = LeafMap::new();
    let count = listeners.len();
    let mut at: usize = 0;
    while at < count
        invariant
            at <= count,
            count == listeners.keys().len(),
            listeners.keys().no_duplicates(),
            forall|h: BlockHash| #[trigger]
                listeners.keys().contains(h) <==> listeners@.contains_key(h),
            forall|h: BlockHash| #[trigger]
                canceled@.contains_key(h) <==> listeners.keys().take(at as int).contains(h),
            forall|h: BlockHash| #[trigger]
                canceled@.contains_key(h) ==> canceled@[h]@.len() == listeners@[h]@.len(),
            forall|h: BlockHash, i: int|
                canceled@.contains_key(h) && 0 <= i < listeners@[h]@.len() ==> reported(
                    #[trigger] listeners@[h]@[i],
                    canceled@[h]@[i],
                ),
        decreases count - at,
    {
        let (hash, list) = listeners.entry(at);
        let mut flags: Vec<bool> = Vec::new();
        let mut i: usize = 0;
        while i < list.len()
            invariant
                i <= list@.len(),
                flags@.len() == i,
                forall|j: int| 0 <= j < i ==> reported(#[trigger] list@[j], flags@[j]),
            decreases list@.len() - i,
        {
            flags.push(list[i].is_canceled());
            i += 1;
        }
        proof {
            let seen = listeners.keys().take(at as int);
            let next = listeners.keys().take(at + 1);
            assert(next =~= seen.push(*hash));
            assert forall|h: BlockHash| next.contains(h) <==> seen.contains(h) || h == *hash by {
                if seen.contains(h) {
                    let k = choose|k: int| 0 <= k < seen.len() && seen[k] == h;
                    assert(next[k] == h);
                }
                assert(next[at as int] == *hash);
            }
        }
        canceled.insert(*hash, flags);
        at += 1;
    }
    proof {
        assert(listeners.keys().take(count as int) =~= listeners.keys());
        assert(sequences(canceled@).dom() =~= sequences(listeners@).dom());
    }
    canceled
}

/// Parts the items that are not marked in `canceled` from those that are. On either side a hash
/// that is left with no item does not occur.
pub fn part_canceled<T>(lists: LeafMap<Vec<T>>, canceled: &LeafMap<Vec<bool>>) -> (parts: (
    LeafMap<Vec<T>>,
    LeafMap<Vec<T>>,
))
    ensures
        sequences(parts.0@) == without_canceled(sequences(lists@), sequences(canceled@)),
        sequences(parts.1@) == only_canceled(sequences(lists@), sequences(canceled@)),
{
    let none: Vec<bool> = Vec::new();
    let mut kept: LeafMap<Vec<T>> = LeafMap::new();
    let mut gone: LeafMap<Vec<T>> = LeafMap::new();
    let mut rest = lists;
    let ghost all = sequences(lists@);
    let ghost marked = sequences(canceled@);
    loop
        invariant
            all == sequences(lists@),
            marked == sequences(canceled@),
            none@ == Seq::<bool>::empty(),
            forall|h: BlockHash| #[trigger]
                rest@.contains_key(h) ==> all.contains_key(h) && all[h] == rest@[h]@,
            forall|h: BlockHash| #[trigger]
                kept@.contains_key(h) <==> {
                    &&& all.contains_key(h)
                    &&& !rest@.contains_key(h)
                    &&& live(all[h], marks(marked, h)).len() > 0
                },
            forall|h: BlockHash| #[trigger]
                kept@.contains_key(h) ==> kept@[h]@ == live(all[h], marks(marked, h)),
            forall|h: BlockHash| #[trigger]
                gone@.contains_key(h) <==> {
                    &&& all.contains_key(h)
                    &&& !rest@.contains_key(h)
                    &&& dead(all[h], marks(marked, h)).len() > 0
                },
            forall|h: BlockHash| #[trigger]
                gone@.contains_key(h) ==> gone@[h]@ == dead(all[h], marks(marked, h)),
        ensures
            sequences(kept@) == without_canceled(all, marked),
            sequences(gone@) == only_canceled(all, marked),
        decreases rest.keys().len(),
    {
        match rest.pop() {
            Some((hash, list)) => {
                let flags = match canceled.get(&hash) {
                    Some(flags) => flags,
                    None => &none,
                };
                assert(flags@ =~= marks(marked, hash));
                let (left, dropped) = part_live(list, flags);
                if !left.is_empty() {
                    kept.insert(hash, left);
                }
                if !dropped.is_empty() {
                    gone.insert(hash, dropped);
                }
            },
            None => {
                assert(sequences(kept@) =~= without_canceled(all, marked));
                assert(sequences(gone@) =~= only_canceled(all, marked));
                break;
            },
        }
    }
    (kept, gone)
}

} // verus!
