//! The overseer's reactions to blocks and requests.

use std::cell::RefCell;

use futures::channel::oneshot;
use overseer::error::{SubsystemError, SubsystemResult};
use overseer::event::{Event, ExternalRequest, ToOverseer};
use overseer::leaf_map::LeafMap;
use overseer::listeners::{answer_all, part_canceled, part_live, poll_canceled, Listener};
use overseer::metrics::Metrics;
use overseer::overseer::{has_api_or_false, HeadSupportsParachains, Overseer};
use overseer::primitives::{BlockHash, BlockInfo};
use overseer::run::{progress, start_subsystem, Progress, Turn, Wakeup};
use overseer::signal::{ActivatedLeaf, ActiveLeavesUpdate, OverseerSignal, Span};
use overseer::subsystems::{declarations, AllMessages, MessageKind};

/// Supports every head but those listed.
struct AllBut(Vec<BlockHash>);

impl HeadSupportsParachains for AllBut {
    fn head_supports_parachains(&self, head: &BlockHash) -> bool {
        !self.0.contains(head)
    }
}

/// Supports every head and notes which ones it was asked about.
struct Noting(RefCell<Vec<BlockHash>>);

impl HeadSupportsParachains for Noting {
    fn head_supports_parachains(&self, head: &BlockHash) -> bool {
        self.0.borrow_mut().push(*head);
        true
    }
}

fn hash(n: u8) -> BlockHash {
    BlockHash([n; 32])
}

fn block(n: u8, parent: u8, number: u32) -> BlockInfo {
    BlockInfo { hash: hash(n), parent_hash: hash(parent), number }
}

fn leaf(n: u8, number: u32, follows_from: Option<u8>) -> ActivatedLeaf {
    ActivatedLeaf {
        hash: hash(n),
        number,
        span: Span {
            hash: hash(n),
            name: "leaf-activated",
            follows_from: follows_from.map(hash),
        },
    }
}

fn update(activated: Vec<ActivatedLeaf>, deactivated: Vec<u8>) -> OverseerSignal {
    OverseerSignal::ActiveLeaves(ActiveLeavesUpdate {
        activated,
        deactivated: deactivated.into_iter().map(hash).collect(),
    })
}

fn overseer(leaves: Vec<BlockInfo>) -> Overseer<AllBut> {
    Overseer::new(leaves, AllBut(Vec::new()))
}

fn wait<S: HeadSupportsParachains>(
    overseer: &mut Overseer<S>,
    n: u8,
) -> oneshot::Receiver<SubsystemResult<()>> {
    let (response_channel, receiver) = oneshot::channel();
    overseer.handle_external_request(ExternalRequest::WaitForActivation {
        hash: hash(n),
        response_channel,
    });
    receiver
}

#[test]
fn new_overseer_holds_its_leaves() {
    let overseer = overseer(vec![block(1, 0, 1), block(2, 0, 1)]);
    assert_eq!(overseer.leaves, vec![(hash(1), 1), (hash(2), 1)]);
    assert_eq!(overseer.active_leaves.len(), 0);
    assert_eq!(
        overseer.metrics,
        Metrics { activated_heads_total: 0, deactivated_heads_total: 0 }
    );
}

#[test]
fn start_takes_up_all_leaves() {
    let mut overseer = overseer(vec![block(1, 0, 1), block(2, 0, 7)]);
    let signals = overseer.start();
    assert_eq!(signals, vec![update(vec![leaf(1, 1, None), leaf(2, 7, None)], vec![])]);
    assert!(overseer.leaves.is_empty());
    assert_eq!(overseer.active_leaves.get(&hash(1)), Some(&1));
    assert_eq!(overseer.active_leaves.get(&hash(2)), Some(&7));
    assert_eq!(overseer.metrics.activated_heads_total, 2);
}

#[test]
fn start_without_leaves_is_silent() {
    assert!(overseer(vec![]).start().is_empty());
}

#[test]
fn start_does_not_announce_unsupported_leaves() {
    let mut overseer =
        Overseer::new(vec![block(1, 0, 1), block(2, 0, 1)], AllBut(vec![hash(1)]));
    assert_eq!(overseer.start(), vec![update(vec![leaf(2, 1, None)], vec![])]);
    assert!(overseer.active_leaves.contains_key(&hash(1)));
}

#[test]
fn start_asks_about_each_leaf_once() {
    let mut overseer =
        Overseer::new(vec![block(1, 0, 1), block(2, 0, 1)], Noting(RefCell::new(Vec::new())));
    overseer.start();
    assert_eq!(*overseer.supports_parachains.0.borrow(), vec![hash(1), hash(2)]);
}

#[test]
fn start_leaves_counts_a_missing_answer_as_no() {
    let mut overseer = overseer(vec![block(1, 0, 1), block(2, 0, 1)]);
    let signals = overseer.start_leaves(&vec![true]);
    assert_eq!(signals, vec![update(vec![leaf(1, 1, None)], vec![])]);
    assert!(overseer.active_leaves.contains_key(&hash(2)));
}

#[test]
fn child_replaces_parent() {
    let mut overseer = overseer(vec![block(1, 0, 1)]);
    overseer.start();
    let signals = overseer.block_imported(block(2, 1, 2)).signals;
    assert_eq!(signals, vec![update(vec![leaf(2, 2, Some(1))], vec![1])]);
    assert_eq!(overseer.active_leaves.get(&hash(1)), None);
    assert_eq!(overseer.active_leaves.get(&hash(2)), Some(&2));
    assert_eq!(
        overseer.metrics,
        Metrics { activated_heads_total: 2, deactivated_heads_total: 1 }
    );
}

#[test]
fn fork_keeps_both_leaves() {
    let mut overseer = overseer(vec![]);
    assert_eq!(
        overseer.block_imported(block(2, 1, 2)).signals,
        vec![update(vec![leaf(2, 2, None)], vec![])]
    );
    assert_eq!(
        overseer.block_imported(block(3, 1, 2)).signals,
        vec![update(vec![leaf(3, 2, None)], vec![])]
    );
    assert_eq!(overseer.active_leaves.len(), 2);
}

#[test]
fn import_of_an_active_leaf_changes_nothing() {
    let mut overseer = overseer(vec![]);
    overseer.block_imported(block(2, 1, 2));
    assert!(overseer.block_imported(block(2, 1, 2)).signals.is_empty());
    assert_eq!(overseer.active_leaves.len(), 1);
    assert_eq!(overseer.metrics.activated_heads_total, 1);
}

#[test]
fn import_of_an_active_leaf_asks_nothing() {
    let mut overseer = Overseer::new(vec![], Noting(RefCell::new(Vec::new())));
    overseer.block_imported(block(2, 1, 2));
    overseer.block_imported(block(2, 1, 2));
    assert_eq!(*overseer.supports_parachains.0.borrow(), vec![hash(2)]);
}

#[test]
fn unsupported_child_only_deactivates_its_parent() {
    let mut overseer = Overseer::new(vec![block(1, 0, 1)], AllBut(vec![hash(2)]));
    overseer.start();
    assert_eq!(overseer.block_imported(block(2, 1, 2)).signals, vec![update(vec![], vec![1])]);
    assert_eq!(overseer.active_leaves.get(&hash(2)), Some(&2));
    assert_eq!(overseer.metrics.activated_heads_total, 1);
}

#[test]
fn unsupported_block_without_active_parent_is_silent() {
    let mut overseer = Overseer::new(vec![], AllBut(vec![hash(2)]));
    assert!(overseer.block_imported(block(2, 1, 2)).signals.is_empty());
    assert!(overseer.active_leaves.contains_key(&hash(2)));
}

#[test]
fn span_follows_only_a_parent_with_a_span() {
    let mut overseer = Overseer::new(vec![block(1, 0, 1)], AllBut(vec![hash(1)]));
    overseer.start();
    assert_eq!(
        overseer.block_imported(block(2, 1, 2)).signals,
        vec![update(vec![leaf(2, 2, None)], vec![1])]
    );
}

#[test]
fn block_that_is_its_own_parent_does_not_stay() {
    let mut overseer = overseer(vec![]);
    assert_eq!(
        overseer.block_imported(block(1, 1, 0)).signals,
        vec![update(vec![leaf(1, 0, None)], vec![1])]
    );
    assert_eq!(overseer.active_leaves.len(), 0);
    assert_eq!(
        overseer.block_imported(block(1, 1, 0)).signals,
        vec![update(vec![leaf(1, 0, None)], vec![1])]
    );
}

#[test]
fn import_leaf_decides_by_the_answer_given() {
    let mut overseer = overseer(vec![]);
    let (changes, _) = overseer.import_leaf(block(2, 1, 2), false);
    assert!(changes.is_empty());
    let (changes, _) = overseer.import_leaf(block(3, 2, 3), true);
    assert_eq!(changes.activated, vec![leaf(3, 3, None)]);
    assert_eq!(changes.deactivated, vec![hash(2)]);
}

#[test]
fn import_agreement() {
    let mut overseer = overseer(vec![]);
    overseer.block_imported(block(2, 1, 5));
    assert!(overseer.import_agrees(&block(2, 1, 5)));
    assert!(!overseer.import_agrees(&block(2, 1, 6)));
    assert!(overseer.import_agrees(&block(3, 2, 6)));
    assert!(!overseer.import_agrees(&block(3, 2, 7)));
    assert!(overseer.import_agrees(&block(4, 9, 42)));
    assert!(overseer.import_agrees(&block(4, 4, 0)));
    assert!(!overseer.import_agrees(&block(4, 4, 1)));
}

#[test]
fn finality_drops_the_leaves_up_to_the_block() {
    let mut overseer = overseer(vec![block(1, 0, 1), block(2, 0, 2), block(3, 0, 3)]);
    overseer.start();
    let signals = overseer.block_finalized(block(9, 8, 2)).signals;
    assert_eq!(signals.len(), 2);
    assert_eq!(signals[0], OverseerSignal::BlockFinalized(hash(9), 2));
    match &signals[1] {
        OverseerSignal::ActiveLeaves(changes) => {
            assert!(changes.activated.is_empty());
            assert_eq!(changes.deactivated.len(), 2);
            assert!(changes.deactivated.contains(&hash(1)));
            assert!(changes.deactivated.contains(&hash(2)));
        },
        other => panic!("{:?}", other),
    }
    assert_eq!(overseer.active_leaves.len(), 1);
    assert_eq!(overseer.active_leaves.get(&hash(3)), Some(&3));
    assert_eq!(overseer.metrics.deactivated_heads_total, 2);
}

#[test]
fn finality_without_effect_still_tells_of_the_block() {
    let mut overseer = overseer(vec![block(3, 0, 3)]);
    overseer.start();
    assert_eq!(
        overseer.block_finalized(block(9, 8, 2)).signals,
        vec![OverseerSignal::BlockFinalized(hash(9), 2)]
    );
}

#[test]
fn finality_is_monotone() {
    let mut overseer = overseer(vec![block(1, 0, 1), block(3, 0, 3)]);
    overseer.start();
    overseer.block_finalized(block(9, 8, 2));
    assert_eq!(
        overseer.block_finalized(block(7, 6, 1)).signals,
        vec![OverseerSignal::BlockFinalized(hash(7), 1)]
    );
    assert_eq!(overseer.metrics.deactivated_heads_total, 1);
}

#[test]
fn listener_of_an_active_leaf_is_answered_at_once() {
    let mut overseer = overseer(vec![block(1, 0, 1)]);
    overseer.start();
    let mut receiver = wait(&mut overseer, 1);
    assert_eq!(receiver.try_recv(), Ok(Some(Ok(()))));
}

#[test]
fn listener_is_answered_on_activation() {
    let mut overseer = overseer(vec![]);
    let mut first = wait(&mut overseer, 2);
    let mut second = wait(&mut overseer, 2);
    let mut other = wait(&mut overseer, 3);
    assert_eq!(first.try_recv(), Ok(None));
    overseer.block_imported(block(2, 1, 2));
    assert_eq!(first.try_recv(), Ok(Some(Ok(()))));
    assert_eq!(second.try_recv(), Ok(Some(Ok(()))));
    assert_eq!(other.try_recv(), Ok(None));
}

#[test]
fn listener_of_an_unsupported_head_waits_and_is_closed_on_deactivation() {
    let mut overseer = Overseer::new(vec![], AllBut(vec![hash(2)]));
    let mut receiver = wait(&mut overseer, 2);
    overseer.block_imported(block(2, 1, 2));
    assert_eq!(receiver.try_recv(), Ok(None));
    let reaction = overseer.block_imported(block(3, 2, 3));
    assert_eq!(reaction.closed.len(), 1);
    assert_eq!(reaction.closed.get(&hash(2)).map(|list| list.len()), Some(1));
    assert_eq!(receiver.try_recv(), Ok(None));
    drop(reaction);
    assert_eq!(receiver.try_recv(), Err(oneshot::Canceled));
}

#[test]
fn listener_of_an_unsupported_head_is_closed_on_finality() {
    let mut overseer = Overseer::new(vec![], AllBut(vec![hash(2)]));
    let mut receiver = wait(&mut overseer, 2);
    overseer.block_imported(block(2, 1, 2));
    let reaction = overseer.block_finalized(block(2, 1, 2));
    assert_eq!(reaction.closed.len(), 1);
    assert_eq!(reaction.closed.get(&hash(2)).map(|list| list.len()), Some(1));
    assert_eq!(receiver.try_recv(), Ok(None));
    drop(reaction);
    assert_eq!(receiver.try_recv(), Err(oneshot::Canceled));
}

#[test]
fn finality_hands_back_the_listeners_of_every_leaf_that_is_gone() {
    let mut overseer = Overseer::new(vec![], AllBut(vec![hash(2), hash(3), hash(4), hash(5)]));
    let mut first = wait(&mut overseer, 2);
    let mut second = wait(&mut overseer, 2);
    let mut third = wait(&mut overseer, 3);
    let mut above = wait(&mut overseer, 4);
    overseer.block_imported(block(2, 1, 2));
    overseer.block_imported(block(3, 1, 2));
    overseer.block_imported(block(4, 9, 3));
    overseer.block_imported(block(5, 1, 2));
    let reaction = overseer.block_finalized(block(2, 1, 2));
    assert_eq!(reaction.closed.len(), 2);
    assert_eq!(reaction.closed.get(&hash(2)).map(|list| list.len()), Some(2));
    assert_eq!(reaction.closed.get(&hash(3)).map(|list| list.len()), Some(1));
    drop(reaction);
    assert_eq!(first.try_recv(), Err(oneshot::Canceled));
    assert_eq!(second.try_recv(), Err(oneshot::Canceled));
    assert_eq!(third.try_recv(), Err(oneshot::Canceled));
    assert_eq!(above.try_recv(), Ok(None));
}

#[test]
fn listeners_of_a_deactivated_head_are_handed_back_in_order() {
    let mut overseer = overseer(vec![]);
    let mut first = wait(&mut overseer, 2);
    let mut second = wait(&mut overseer, 2);
    assert!(overseer.on_head_deactivated(&hash(3)).is_empty());
    let closed = overseer.on_head_deactivated(&hash(2));
    assert_eq!(closed.len(), 2);
    let mut closed = closed.into_iter();
    drop(closed.next());
    assert_eq!(first.try_recv(), Err(oneshot::Canceled));
    assert_eq!(second.try_recv(), Ok(None));
    drop(closed);
    assert_eq!(second.try_recv(), Err(oneshot::Canceled));
    assert!(overseer.on_head_deactivated(&hash(2)).is_empty());
}

#[test]
fn import_leaf_hands_back_the_listeners_of_the_parent() {
    let mut overseer = overseer(vec![]);
    let mut receiver = wait(&mut overseer, 2);
    let (_, closed) = overseer.import_leaf(block(2, 1, 2), false);
    assert!(closed.is_empty());
    let (_, closed) = overseer.import_leaf(block(3, 2, 3), true);
    assert_eq!(closed.len(), 1);
    assert_eq!(receiver.try_recv(), Ok(None));
    drop(closed);
    assert_eq!(receiver.try_recv(), Err(oneshot::Canceled));
}

#[test]
fn block_that_is_its_own_parent_answers_before_it_goes() {
    let mut overseer = Overseer::new(vec![], AllBut(vec![hash(2)]));
    let mut supported = wait(&mut overseer, 1);
    let mut unsupported = wait(&mut overseer, 2);
    assert_eq!(overseer.block_imported(block(1, 1, 0)).closed.len(), 0);
    assert_eq!(supported.try_recv(), Ok(Some(Ok(()))));
    assert_eq!(overseer.block_imported(block(2, 2, 0)).closed.len(), 1);
    assert_eq!(unsupported.try_recv(), Err(oneshot::Canceled));
}

#[test]
fn dead_listener_does_not_disturb_the_others() {
    let mut overseer = overseer(vec![]);
    let first = wait(&mut overseer, 5);
    let mut second = wait(&mut overseer, 5);
    drop(first);
    let reaction = overseer.block_imported(block(2, 1, 2));
    assert_eq!(reaction.closed.len(), 1);
    assert_eq!(reaction.closed.get(&hash(5)).map(|list| list.len()), Some(1));
    assert_eq!(second.try_recv(), Ok(None));
    overseer.block_imported(block(5, 1, 2));
    assert_eq!(second.try_recv(), Ok(Some(Ok(()))));
}

#[test]
fn activation_answers_whoever_waits() {
    let mut overseer = overseer(vec![block(1, 0, 1)]);
    let mut receiver = wait(&mut overseer, 5);
    overseer.start();
    overseer.block_imported(block(2, 1, 2));
    overseer.block_finalized(block(2, 1, 2));
    let other = wait(&mut overseer, 5);
    overseer.block_imported(block(3, 2, 3));
    assert_eq!(receiver.try_recv(), Ok(None));
    drop(other);
    overseer.block_imported(block(5, 3, 4));
    assert_eq!(receiver.try_recv(), Ok(Some(Ok(()))));
}

#[test]
fn clean_up_takes_only_those_who_left() {
    let mut overseer = overseer(vec![]);
    let mut receiver = wait(&mut overseer, 5);
    drop(wait(&mut overseer, 5));
    drop(wait(&mut overseer, 6));
    let gone = overseer.clean_up_external_listeners();
    assert_eq!(gone.len(), 2);
    assert_eq!(gone.get(&hash(5)).map(|list| list.len()), Some(1));
    assert_eq!(gone.get(&hash(6)).map(|list| list.len()), Some(1));
    assert_eq!(receiver.try_recv(), Ok(None));
    assert_eq!(overseer.clean_up_external_listeners().len(), 0);
}

#[test]
fn marked_listeners_are_handed_back() {
    let mut overseer = overseer(vec![]);
    let mut first = wait(&mut overseer, 5);
    let mut second = wait(&mut overseer, 5);
    let mut canceled: LeafMap<Vec<bool>> = LeafMap::new();
    canceled.insert(hash(5), vec![true, false]);
    let gone = overseer.remove_canceled_listeners(&canceled);
    assert_eq!(gone.get(&hash(5)).map(|list| list.len()), Some(1));
    assert_eq!(first.try_recv(), Ok(None));
    drop(gone);
    assert_eq!(first.try_recv(), Err(oneshot::Canceled));
    assert_eq!(second.try_recv(), Ok(None));
}

#[test]
fn polling_tells_the_dead_from_the_living() {
    let (alive, receiver): (Listener, _) = oneshot::channel();
    let (dead, gone): (Listener, _) = oneshot::channel();
    drop(gone);
    let mut listeners: LeafMap<Vec<Listener>> = LeafMap::new();
    listeners.insert(hash(1), vec![alive, dead]);
    let canceled = poll_canceled(&listeners);
    assert_eq!(canceled.get(&hash(1)), Some(&vec![false, true]));
    let (kept, gone) = part_canceled(listeners, &canceled);
    assert_eq!(kept.get(&hash(1)).map(|list| list.len()), Some(1));
    assert_eq!(gone.get(&hash(1)).map(|list| list.len()), Some(1));
    drop(receiver);
}

#[test]
fn hash_without_listeners_is_dropped() {
    let mut lists: LeafMap<Vec<u8>> = LeafMap::new();
    lists.insert(hash(1), vec![10]);
    lists.insert(hash(2), vec![20, 21, 22]);
    lists.insert(hash(3), vec![30]);
    let mut canceled: LeafMap<Vec<bool>> = LeafMap::new();
    canceled.insert(hash(1), vec![true]);
    canceled.insert(hash(2), vec![false, true]);
    let (kept, gone) = part_canceled(lists, &canceled);
    assert_eq!(kept.len(), 2);
    assert_eq!(kept.get(&hash(2)), Some(&vec![20, 22]));
    assert_eq!(kept.get(&hash(3)), Some(&vec![30]));
    assert_eq!(gone.len(), 2);
    assert_eq!(gone.get(&hash(1)), Some(&vec![10]));
    assert_eq!(gone.get(&hash(2)), Some(&vec![21]));
}

#[test]
fn unmarked_items_stay() {
    assert_eq!(part_live(vec![1, 2, 3], &vec![]), (vec![1, 2, 3], vec![]));
    assert_eq!(part_live(vec![1, 2, 3], &vec![false, true, false]), (vec![1, 3], vec![2]));
}

#[test]
fn answer_all_skips_those_who_left() {
    let (first, gone): (Listener, _) = oneshot::channel();
    let (second, mut receiver): (Listener, _) = oneshot::channel();
    drop(gone);
    answer_all(vec![first, second]);
    assert_eq!(receiver.try_recv(), Ok(Some(Ok(()))));
}

#[test]
fn head_activation_on_its_own() {
    let mut overseer = Overseer::new(vec![], AllBut(vec![hash(2)]));
    assert_eq!(overseer.on_head_activated(&hash(2), None), None);
    let span = overseer.on_head_activated(&hash(1), Some(hash(9)));
    assert_eq!(span, Some(leaf(1, 0, None).span));
    let span = overseer.activate_head(&hash(3), Some(hash(1)), true);
    assert_eq!(span, Some(leaf(3, 0, Some(1)).span));
    overseer.on_head_deactivated(&hash(1));
    let span = overseer.activate_head(&hash(4), Some(hash(1)), true);
    assert_eq!(span, Some(leaf(4, 0, None).span));
    assert_eq!(
        overseer.metrics,
        Metrics { activated_heads_total: 3, deactivated_heads_total: 1 }
    );
}

#[test]
fn runtime_that_cannot_tell_has_no_api() {
    assert!(has_api_or_false::<()>(Ok(true)));
    assert!(!has_api_or_false::<()>(Ok(false)));
    assert!(!has_api_or_false(Err("unknown block")));
}

#[test]
fn turns_of_the_loop() {
    let mut overseer = overseer(vec![]);

    let turn: Turn<u8, u16> = overseer.turn(Wakeup::Event(None));
    assert!(matches!(turn, Turn::Continue));
    let turn: Turn<u8, u16> = overseer.turn(Wakeup::ToOverseer(None));
    assert!(matches!(turn, Turn::Continue));
    let turn: Turn<u8, u16> = overseer.turn(Wakeup::Finished(None));
    assert!(matches!(turn, Turn::Continue));

    let turn: Turn<u8, u16> =
        overseer.turn(Wakeup::Event(Some(Event::BlockImported(block(1, 0, 1)))));
    match turn {
        Turn::React(reaction) => {
            assert_eq!(reaction.signals, vec![update(vec![leaf(1, 1, None)], vec![])])
        },
        _ => panic!("not a reaction"),
    }

    let turn: Turn<u8, u16> =
        overseer.turn(Wakeup::Event(Some(Event::BlockFinalized(block(9, 8, 0)))));
    match turn {
        Turn::React(reaction) => {
            assert_eq!(reaction.signals, vec![OverseerSignal::BlockFinalized(hash(9), 0)])
        },
        _ => panic!("not a reaction"),
    }

    let message = AllMessages { kind: MessageKind::Provisioner, payload: 7 };
    let turn: Turn<u8, u16> = overseer.turn(Wakeup::Event(Some(Event::MsgToSubsystem(message))));
    match turn {
        Turn::RouteMessage(message) => {
            assert_eq!(message, AllMessages { kind: MessageKind::Provisioner, payload: 7 })
        },
        _ => panic!("not routed"),
    }

    let turn: Turn<u8, u16> =
        overseer.turn(Wakeup::ToOverseer(Some(ToOverseer::SpawnJob { name: "job", s: 3 })));
    assert!(matches!(turn, Turn::SpawnJob { name: "job", s: 3 }));
    let turn: Turn<u8, u16> = overseer
        .turn(Wakeup::ToOverseer(Some(ToOverseer::SpawnBlockingJob { name: "job", s: 4 })));
    assert!(matches!(turn, Turn::SpawnBlockingJob { name: "job", s: 4 }));
}

#[test]
fn request_is_handled_in_a_turn() {
    let mut overseer = overseer(vec![]);
    let (response_channel, mut receiver) = oneshot::channel();
    let request = ExternalRequest::WaitForActivation { hash: hash(1), response_channel };
    let turn: Turn<u8, u16> = overseer.turn(Wakeup::Event(Some(Event::ExternalRequest(request))));
    assert!(matches!(turn, Turn::Continue));
    assert_eq!(receiver.try_recv(), Ok(None));
    overseer.block_imported(block(1, 0, 1));
    assert_eq!(receiver.try_recv(), Ok(Some(Ok(()))));
}

#[test]
fn stop_concludes_with_success() {
    let mut overseer = overseer(vec![]);
    let turn: Turn<u8, u16> = overseer.turn(Wakeup::Event(Some(Event::Stop)));
    match turn {
        Turn::Stop { signal, timeout_secs, result } => {
            assert_eq!(signal, OverseerSignal::Conclude);
            assert_eq!(timeout_secs, 1);
            assert_eq!(result, Ok(()));
        },
        _ => panic!("not a stop"),
    }
}

#[test]
fn finished_subsystem_stops_the_overseer_with_its_result() {
    let mut overseer = overseer(vec![]);
    let failure = SubsystemError::Context(String::from("out of memory"));
    let turn: Turn<u8, u16> = overseer.turn(Wakeup::Finished(Some(Err(failure))));
    match turn {
        Turn::Stop { signal, timeout_secs: _, result } => {
            assert_eq!(signal, OverseerSignal::Conclude);
            assert_eq!(result, Err(SubsystemError::Context(String::from("out of memory"))));
        },
        _ => panic!("not a stop"),
    }
    let turn: Turn<u8, u16> = overseer.turn(Wakeup::Finished(Some(Ok(()))));
    assert!(matches!(turn, Turn::Stop { result: Ok(()), .. }));
}

#[test]
fn signals_go_out_in_order() {
    let signals = vec![OverseerSignal::BlockFinalized(hash(1), 1), OverseerSignal::Conclude];
    match progress(Ok(()), signals) {
        Progress::Broadcast(signal, later) => {
            assert_eq!(signal, OverseerSignal::BlockFinalized(hash(1), 1));
            assert_eq!(later, vec![OverseerSignal::Conclude]);
        },
        _ => panic!("not a broadcast"),
    }
    assert!(matches!(progress(Ok(()), vec![]), Progress::Wait));
}

#[test]
fn first_failure_ends_the_loop() {
    match progress(Err(SubsystemError::QueueError), vec![OverseerSignal::Conclude]) {
        Progress::Return(result) => assert_eq!(result, Err(SubsystemError::QueueError)),
        _ => panic!("not a return"),
    }
}

#[test]
fn updates_suffice_to_follow_the_leaves() {
    let mut overseer = Overseer::new(vec![block(1, 0, 1), block(2, 0, 1)], AllBut(vec![hash(4)]));
    let mut known: Vec<BlockHash> = Vec::new();
    let mut signals = overseer.start();
    signals.extend(overseer.block_imported(block(3, 1, 2)).signals);
    signals.extend(overseer.block_imported(block(4, 2, 2)).signals);
    signals.extend(overseer.block_imported(block(5, 3, 3)).signals);
    signals.extend(overseer.block_finalized(block(6, 3, 2)).signals);
    signals.extend(overseer.block_imported(block(7, 4, 3)).signals);
    for signal in signals {
        if let OverseerSignal::ActiveLeaves(changes) = signal {
            known.extend(changes.activated.iter().map(|leaf| leaf.hash));
            known.retain(|known| !changes.deactivated.contains(known));
        }
    }
    assert_eq!(known, vec![hash(5), hash(7)]);
    assert!(overseer.active_leaves.contains_key(&hash(5)));
    assert!(overseer.active_leaves.contains_key(&hash(7)));
    assert_eq!(overseer.active_leaves.len(), 2);
}

#[test]
fn work_goes_on_at_the_supported_leaves() {
    // Whether a block has a span shows in the span of its child.
    let unsupported = vec![hash(2), hash(4)];
    let mut overseer =
        Overseer::new(vec![block(1, 0, 1), block(2, 0, 1), block(3, 0, 1)], AllBut(unsupported));
    overseer.start();
    overseer.block_imported(block(4, 1, 2));
    for (child, parent, number, follows_from) in
        [(11, 1, 2, None), (12, 2, 2, None), (13, 3, 2, Some(3)), (14, 4, 3, None)]
    {
        let (changes, _) = overseer.import_leaf(block(child, parent, number), true);
        assert_eq!(changes.activated, vec![leaf(child, number, follows_from)]);
    }
}

#[test]
fn every_listener_is_accounted_for() {
    let mut overseer = Overseer::new(vec![], AllBut(vec![hash(2)]));
    let mut parents = wait(&mut overseer, 2);
    overseer.block_imported(block(2, 1, 2));
    let mut childs = wait(&mut overseer, 3);
    let mut others = wait(&mut overseer, 4);
    drop(wait(&mut overseer, 4));
    let reaction = overseer.block_imported(block(3, 2, 3));
    assert_eq!(reaction.closed.len(), 2);
    assert_eq!(reaction.closed.get(&hash(2)).map(|list| list.len()), Some(1));
    assert_eq!(reaction.closed.get(&hash(4)).map(|list| list.len()), Some(1));
    drop(reaction);
    assert_eq!(parents.try_recv(), Err(oneshot::Canceled));
    assert_eq!(childs.try_recv(), Ok(Some(Ok(()))));
    assert_eq!(others.try_recv(), Ok(None));
}

#[test]
fn subsystems_that_block_start_on_the_pool_for_that() {
    let mut blocking: Vec<&'static str> = Vec::new();
    for field in declarations().iter() {
        match start_subsystem(field, 7) {
            ToOverseer::SpawnBlockingJob { name, s } => {
                assert_eq!((name, s), (field.name, 7));
                blocking.push(name);
            },
            ToOverseer::SpawnJob { name, s } => assert_eq!((name, s), (field.name, 7)),
        }
    }
    assert_eq!(
        blocking,
        vec!["bitfield_signing", "runtime_api", "availability_store", "chain_api"]
    );
}

#[test]
fn imports_agree_on_a_chain() {
    let mut overseer = overseer(vec![block(1, 0, 1), block(2, 0, 1)]);
    overseer.start();
    for imported in [block(3, 1, 2), block(4, 1, 2), block(3, 1, 2), block(5, 4, 3)] {
        assert!(overseer.import_agrees(&imported));
        overseer.block_imported(imported);
    }
    overseer.block_finalized(block(3, 1, 2));
    let imported = block(6, 5, 4);
    assert!(overseer.import_agrees(&imported));
    overseer.block_imported(imported);
    assert_eq!(overseer.active_leaves().get(&hash(6)), Some(&4));
    assert_eq!(overseer.active_leaves().len(), 1);
}

#[test]
fn state_can_be_read() {
    let mut overseer = Overseer::new(vec![block(1, 0, 1)], AllBut(vec![hash(7)]));
    assert_eq!(overseer.leaves(), &vec![(hash(1), 1)]);
    assert!(!overseer.is_active(&hash(1)));
    overseer.start();
    assert!(overseer.leaves().is_empty());
    assert!(overseer.is_active(&hash(1)));
    assert!(!overseer.is_active(&hash(2)));
    assert_eq!(overseer.active_leaves().get(&hash(1)), Some(&1));
    assert_eq!(overseer.supports_parachains().0, vec![hash(7)]);
    assert_eq!(
        overseer.metrics(),
        &Metrics { activated_heads_total: 1, deactivated_heads_total: 0 }
    );
}
