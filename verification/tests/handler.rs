//! The way into the overseer, the table of subsystems, dispatch, and the leaf map.

use futures::channel::oneshot;
use overseer::dispatch::{keep_concerned, OverseerInfo, SubSysField};
use overseer::event::{Event, ExternalRequest};
use overseer::handler::{forward_event, forward_events, ClientNotification, Forwarding, Handler};
use overseer::leaf_map::LeafMap;
use overseer::metrics::{fill_levels, Metrics, OverseenSubsystem, SubsystemInstance};
use overseer::primitives::{
    BlockHash, BlockImportNotification, BlockInfo, FinalityNotification, Header,
};
use overseer::subsystems::{declarations, AllMessages, AllSubsystems, MessageKind};

fn hash(n: u8) -> BlockHash {
    BlockHash([n; 32])
}

fn imported(n: u8) -> BlockImportNotification {
    BlockImportNotification {
        hash: hash(n),
        header: Header { parent_hash: hash(n - 1), number: n as u32 },
    }
}

fn finalized(n: u8) -> FinalityNotification {
    FinalityNotification {
        hash: hash(n),
        header: Header { parent_hash: hash(n - 1), number: n as u32 },
    }
}

fn info(n: u8) -> BlockInfo {
    BlockInfo { hash: hash(n), parent_hash: hash(n - 1), number: n as u32 }
}

#[test]
fn hashes_are_equal_byte_for_byte() {
    let mut other = [7; 32];
    assert!(hash(7) == BlockHash(other));
    other[31] = 8;
    assert!(hash(7) != BlockHash(other));
}

#[test]
fn notifications_become_block_infos() {
    assert_eq!(BlockInfo::from(imported(5)), info(5));
    assert_eq!(BlockInfo::from(finalized(6)), info(6));
}

#[test]
fn events_are_handed_over_in_order() {
    let mut handler: Handler<u8> = Handler::new();
    handler.block_imported(info(1));
    handler.block_finalized(info(2));
    handler.send_msg(AllMessages { kind: MessageKind::ChainApi, payload: 9 });
    let (response_channel, receiver) = oneshot::channel();
    handler.wait_for_activation(hash(3), response_channel);
    handler.stop();
    let events = handler.take();
    assert_eq!(events.len(), 5);
    assert!(matches!(&events[0], Event::BlockImported(block) if *block == info(1)));
    assert!(matches!(&events[1], Event::BlockFinalized(block) if *block == info(2)));
    assert!(matches!(
        &events[2],
        Event::MsgToSubsystem(AllMessages { kind: MessageKind::ChainApi, payload: 9 })
    ));
    match &events[3] {
        Event::ExternalRequest(ExternalRequest::WaitForActivation { hash: h, response_channel }) => {
            assert_eq!(*h, hash(3));
            assert!(response_channel.is_connected_to(&receiver));
        },
        _ => panic!("not a request"),
    }
    assert!(matches!(&events[4], Event::Stop));
    assert!(handler.take().is_empty());
}

#[test]
fn notifications_are_forwarded() {
    let mut handler: Handler<u8> = Handler::new();
    let next = forward_event(&mut handler, ClientNotification::Import(Some(imported(4))));
    assert_eq!(next, Forwarding::Continue);
    let next = forward_event(&mut handler, ClientNotification::Finality(Some(finalized(3))));
    assert_eq!(next, Forwarding::Continue);
    let events = handler.take();
    assert!(matches!(&events[0], Event::BlockImported(block) if *block == info(4)));
    assert!(matches!(&events[1], Event::BlockFinalized(block) if *block == info(3)));
}

#[test]
fn forwarding_ends_with_either_stream() {
    let ends = vec![
        ClientNotification::Import(None),
        ClientNotification::Finality(None),
        ClientNotification::Complete,
    ];
    for end in ends {
        let mut handler: Handler<u8> = Handler::new();
        assert_eq!(forward_event(&mut handler, end), Forwarding::Ended);
        assert!(handler.take().is_empty());
    }
}

#[test]
fn nothing_is_forwarded_after_the_end() {
    let mut handler: Handler<u8> = Handler::new();
    let run = vec![
        ClientNotification::Import(Some(imported(1))),
        ClientNotification::Finality(None),
        ClientNotification::Import(Some(imported(2))),
    ];
    assert_eq!(forward_events(&mut handler, run), Forwarding::Ended);
    let events = handler.take();
    assert_eq!(events.len(), 1);
    assert!(matches!(&events[0], Event::BlockImported(block) if *block == info(1)));
    let run = vec![
        ClientNotification::Import(Some(imported(1))),
        ClientNotification::Finality(Some(finalized(1))),
    ];
    assert_eq!(forward_events(&mut handler, run), Forwarding::Continue);
    assert_eq!(handler.take().len(), 2);
}

fn field(name: &'static str, consumes: u32, no_dispatch: bool) -> SubSysField<&'static str, u32> {
    SubSysField { name, consumes, no_dispatch, blocking: false }
}

fn declaration() -> OverseerInfo<&'static str, u32> {
    OverseerInfo {
        message_wrapper: "AllMessages",
        extern_event_ty: 100,
        subsystems: vec![
            field("a", 1, false),
            field("b", 2, true),
            field("c", 3, false),
            field("d", 4, false),
        ],
    }
}

#[test]
fn no_dispatch_keeps_a_subsystem_out() {
    assert_eq!(declaration().dispatchable(), vec![&1, &3, &4]);
}

#[test]
fn event_goes_to_those_it_concerns() {
    let declaration = declaration();
    let messages =
        declaration.dispatch_iter(|consumes| if *consumes == 3 { None } else { Some(consumes * 10) });
    assert_eq!(messages, vec![(&1, 10), (&4, 40)]);
}

#[test]
fn pairs_without_an_event_are_left_out() {
    assert_eq!(
        keep_concerned(vec![('a', Some(1)), ('b', None), ('c', Some(3))]),
        vec![('a', 1), ('c', 3)]
    );
}

#[test]
fn three_subsystems_are_dispatched_to() {
    let dispatched: Vec<MessageKind> = declarations()
        .into_iter()
        .filter(|field| !field.no_dispatch)
        .map(|field| field.consumes)
        .collect();
    assert_eq!(
        dispatched,
        vec![
            MessageKind::StatementDistribution,
            MessageKind::BitfieldDistribution,
            MessageKind::ApprovalDistribution,
        ]
    );
}

#[test]
fn four_subsystems_block() {
    let blocking: Vec<&'static str> = declarations()
        .into_iter()
        .filter(|field| field.blocking)
        .map(|field| field.name)
        .collect();
    assert_eq!(
        blocking,
        vec!["bitfield_signing", "runtime_api", "availability_store", "chain_api"]
    );
}

#[test]
fn network_event_becomes_messages() {
    let messages = AllMessages::dispatch_iter(|kind| match kind {
        MessageKind::StatementDistribution => Some("statement"),
        MessageKind::ApprovalDistribution => Some("approval"),
        _ => None,
    });
    assert_eq!(
        messages,
        vec![
            AllMessages { kind: MessageKind::StatementDistribution, payload: "statement" },
            AllMessages { kind: MessageKind::ApprovalDistribution, payload: "approval" },
        ]
    );
    assert_eq!(
        AllMessages::dispatch(None, Some(2), None),
        vec![AllMessages { kind: MessageKind::BitfieldDistribution, payload: 2 }]
    );
}

#[test]
fn positions_match_the_declarations() {
    let fields = declarations();
    assert_eq!(fields.len(), 18);
    for (at, field) in fields.iter().enumerate() {
        assert_eq!(field.consumes.position(), at);
    }
}

#[test]
fn every_subsystem_has_its_place() {
    let all = AllSubsystems {
        candidate_validation: "candidate_validation",
        candidate_backing: "candidate_backing",
        candidate_selection: "candidate_selection",
        statement_distribution: "statement_distribution",
        availability_distribution: "availability_distribution",
        availability_recovery: "availability_recovery",
        bitfield_signing: "bitfield_signing",
        bitfield_distribution: "bitfield_distribution",
        provisioner: "provisioner",
        runtime_api: "runtime_api",
        availability_store: "availability_store",
        network_bridge: "network_bridge",
        chain_api: "chain_api",
        collation_generation: "collation_generation",
        collator_protocol: "collator_protocol",
        approval_distribution: "approval_distribution",
        approval_voting: "approval_voting",
        gossip_support: "gossip_support",
    };
    let names: Vec<&'static str> = declarations().into_iter().map(|field| field.name).collect();
    assert_eq!(all.in_order(), names);
}

#[test]
fn only_running_subsystems_are_measured() {
    let idle: OverseenSubsystem<u32> = OverseenSubsystem { instance: None };
    let busy = OverseenSubsystem {
        instance: Some(SubsystemInstance { name: "provisioner", meters: 5 }),
    };
    assert_eq!(idle.name_and_meters(), None);
    assert_eq!(busy.name_and_meters(), Some(("provisioner", 5)));
    let meters = vec![Some(("a", 1)), None, Some(("c", 3))];
    assert_eq!(fill_levels(&meters, |meter| meter * 2), vec![("a", 2), ("c", 6)]);
}

#[test]
fn counters_start_over() {
    let mut metrics = Metrics { activated_heads_total: u64::MAX, deactivated_heads_total: 4 };
    metrics.on_head_activated();
    metrics.on_head_deactivated();
    assert_eq!(metrics, Metrics { activated_heads_total: 0, deactivated_heads_total: 5 });
}

#[test]
fn leaf_map_holds_one_value_per_hash() {
    let mut map: LeafMap<u32> = LeafMap::new();
    assert_eq!(map.insert(hash(1), 10), None);
    assert_eq!(map.insert(hash(2), 20), None);
    assert_eq!(map.insert(hash(1), 11), Some(10));
    assert_eq!(map.len(), 2);
    assert_eq!(map.get(&hash(1)), Some(&11));
    assert!(map.contains_key(&hash(2)));
    assert_eq!(map.remove(&hash(2)), Some(20));
    assert_eq!(map.remove(&hash(2)), None);
    assert_eq!(map.entry(0), (&hash(1), &11));
    assert_eq!(map.pop(), Some((hash(1), 11)));
    assert_eq!(map.pop(), None);
}
