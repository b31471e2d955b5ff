//! What holds of the messages, the subsystems that get them, the notifications that are forwarded
//! and the end of the main loop.

use vstd::prelude::*;

use crate::dispatch::{concerned, dispatchable_of, SubSysField};
use crate::error::SubsystemResult;
use crate::event::Event;
use crate::handler::{forwarded, forwarded_run, ClientNotification, Handler};
use crate::leaf_laws::lemma_place_added;
use crate::metrics::{running, METRONOME_PERIOD_MILLIS};
use crate::run::{stop_turn, Turn};
use crate::signal::OverseerSignal;
use crate::subsystems::{all_kinds, network_messages, AllMessages, AllSubsystems, MessageKind};

verus! {

/// The loop ends with the very result that it is to end with, success or failure of any kind. The
/// subsystems are told to conclude and get one second for it.
pub proof fn law_stop_keeps_the_result<P, J>(result: SubsystemResult<()>)
    ensures
        stop_turn::<P, J>(result) matches Turn::Stop { signal, timeout_secs, result: ended }
            && ended == result && signal == OverseerSignal::Conclude && timeout_secs == 1,
{
}

/// Two runs of the loop that stop with different results end differently.
pub proof fn law_stop_tells_results_apart<P, J>(
    result: SubsystemResult<()>,
    other: SubsystemResult<()>,
)
    requires
        result != other,
    ensures
        stop_turn::<P, J>(result) != stop_turn::<P, J>(other),
{
    law_stop_keeps_the_result::<P, J>(result);
    law_stop_keeps_the_result::<P, J>(other);
}

/// Each type that an event concerns gets a message with the event as it sees it, whatever the
/// others get, and no other type gets one. The messages are in the order of the types: `at` lists
/// the places of those that get one.
pub proof fn law_each_concerned_type_gets_a_message<T, E>(
    types: Seq<T>,
    focused: Seq<Option<E>>,
) -> (at: Seq<int>)
    requires
        types.len() <= focused.len(),
    ensures
        concerned(types, focused).len() == at.len(),
        forall|j: int, k: int| 0 <= j < k < at.len() ==> #[trigger] at[j] < #[trigger] at[k],
        forall|k: int|
            0 <= k < at.len() ==> {
                &&& 0 <= #[trigger] at[k] < types.len()
                &&& concerned(types, focused)[k].0 == types[at[k]]
                &&& focused[at[k]] == Some(concerned(types, focused)[k].1)
            },
        forall|i: int|
            0 <= i < types.len() && focused[i] is Some ==> #[trigger] at.contains(i),
        forall|i: int|
            0 <= i < types.len() && focused[i] is Some ==> concerned(types, focused).contains(
                (#[trigger] types[i], focused[i]->0),
            ),
    decreases types.len(),
{
    let at = if types.len() == 0 {
        Seq::empty()
    } else {
        let n = types.len() - 1;
        let before = law_each_concerned_type_gets_a_message(types.drop_last(), focused);
        if focused[n] is Some {
            lemma_place_added(before, n);
            before.push(n)
        } else {
            before
        }
    };
    assert forall|i: int| 0 <= i < types.len() && focused[i] is Some implies concerned(
        types,
        focused,
    ).contains((#[trigger] types[i], focused[i]->0)) by {
        assert(at.contains(i));
        let k = choose|k: int| 0 <= k < at.len() && at[k] == i;
        assert(concerned(types, focused)[k] == (types[i], focused[i]->0));
    }
    at
}

/// The types that are told of network events are those of the subsystems that are not declared
/// otherwise, in the order of the declarations: `at` lists their places.
pub proof fn law_dispatchable_types<'a, I, T>(subsystems: Seq<SubSysField<I, T>>) -> (at: Seq<int>)
    ensures
        dispatchable_of(subsystems).len() == at.len(),
        forall|j: int, k: int| 0 <= j < k < at.len() ==> #[trigger] at[j] < #[trigger] at[k],
        forall|k: int|
            0 <= k < at.len() ==> {
                &&& 0 <= #[trigger] at[k] < subsystems.len()
                &&& !subsystems[at[k]].no_dispatch
                &&& *dispatchable_of(subsystems)[k] == subsystems[at[k]].consumes
            },
        forall|i: int|
            0 <= i < subsystems.len() && !subsystems[i].no_dispatch ==> #[trigger] at.contains(i),
    decreases subsystems.len(),
{
    reveal(Seq::filter);
    if subsystems.len() == 0 {
        Seq::empty()
    } else {
        let n = subsystems.len() - 1;
        let before = law_dispatchable_types(subsystems.drop_last());
        if subsystems[n].no_dispatch {
            before
        } else {
            lemma_place_added(before, n);
            before.push(n)
        }
    }
}

/// A network event becomes one message for each of the three distribution subsystems that it
/// concerns, whatever the other two get: first for statements, then for bitfields, then for
/// approvals. It becomes no other message.
pub proof fn law_network_event_reaches_whom_it_concerns<P>(
    statement: Option<P>,
    bitfield: Option<P>,
    approval: Option<P>,
)
    ensures
        ({
            let messages = network_messages(statement, bitfield, approval);
            let first: int = if statement is Some {
                1
            } else {
                0
            };
            let second: int = if bitfield is Some {
                1
            } else {
                0
            };
            let third: int = if approval is Some {
                1
            } else {
                0
            };
            &&& messages.len() == first + second + third
            &&& statement matches Some(payload) ==> messages[0] == (AllMessages {
                kind: MessageKind::StatementDistribution,
                payload,
            })
            &&& bitfield matches Some(payload) ==> messages[first] == (AllMessages {
                kind: MessageKind::BitfieldDistribution,
                payload,
            })
            &&& approval matches Some(payload) ==> messages[first + second] == (AllMessages {
                kind: MessageKind::ApprovalDistribution,
                payload,
            })
        }),
{
}

/// The subsystem at the place of a kind is the one that consumes messages of that kind, and it is
/// declared there under its own name. Statements, bitfields and approvals are distributed by the
/// only subsystems that are told of network events; those that sign bitfields, ask the runtime,
/// store availability data and ask the chain are the only ones that block.
pub proof fn law_every_kind_has_its_subsystem<T>(all: AllSubsystems<T>, kind: MessageKind, at: int)
    requires
        0 <= at < all_kinds().len(),
        all_kinds()[at] == kind,
    ensures
        ({
            let subsystem = all_kinds().map_values(|k: MessageKind| all.of(k))[at];
            let field = all_kinds().map_values(|k: MessageKind| k.declaration())[at];
            &&& field.consumes == kind
            &&& field.no_dispatch <==> !(kind == MessageKind::StatementDistribution || kind
                == MessageKind::BitfieldDistribution || kind == MessageKind::ApprovalDistribution)
            &&& field.blocking <==> (kind == MessageKind::BitfieldSigning || kind
                == MessageKind::RuntimeApi || kind == MessageKind::AvailabilityStore || kind
                == MessageKind::ChainApi)
            &&& kind == MessageKind::CandidateValidation ==> subsystem == all.candidate_validation
                && field.name == "candidate_validation"
            &&& kind == MessageKind::CandidateBacking ==> subsystem == all.candidate_backing
                && field.name == "candidate_backing"
            &&& kind == MessageKind::CandidateSelection ==> subsystem == all.candidate_selection
                && field.name == "candidate_selection"
            &&& kind == MessageKind::StatementDistribution ==> subsystem
                == all.statement_distribution && field.name == "statement_distribution"
            &&& kind == MessageKind::AvailabilityDistribution ==> subsystem
                == all.availability_distribution && field.name == "availability_distribution"
            &&& kind == MessageKind::AvailabilityRecovery ==> subsystem
                == all.availability_recovery && field.name == "availability_recovery"
            &&& kind == MessageKind::BitfieldSigning ==> subsystem == all.bitfield_signing
                && field.name == "bitfield_signing"
            &&& kind == MessageKind::BitfieldDistribution ==> subsystem
                == all.bitfield_distribution && field.name == "bitfield_distribution"
            &&& kind == MessageKind::Provisioner ==> subsystem == all.provisioner && field.name
                == "provisioner"
            &&& kind == MessageKind::RuntimeApi ==> subsystem == all.runtime_api && field.name
                == "runtime_api"
            &&& kind == MessageKind::AvailabilityStore ==> subsystem == all.availability_store
                && field.name == "availability_store"
            &&& kind == MessageKind::NetworkBridge ==> subsystem == all.network_bridge && field.name
                == "network_bridge"
            &&& kind == MessageKind::ChainApi ==> subsystem == all.chain_api && field.name
                == "chain_api"
            &&& kind == MessageKind::CollationGeneration ==> subsystem == all.collation_generation
                && field.name == "collation_generation"
            &&& kind == MessageKind::CollatorProtocol ==> subsystem == all.collator_protocol
                && field.name == "collator_protocol"
            &&& kind == MessageKind::ApprovalDistribution ==> subsystem
                == all.approval_distribution && field.name == "approval_distribution"
            &&& kind == MessageKind::ApprovalVoting ==> subsystem == all.approval_voting
                && field.name == "approval_voting"
            &&& kind == MessageKind::GossipSupport ==> subsystem == all.gossip_support && field.name
                == "gossip_support"
        }),
{
}

/// Every kind has one place, and no two kinds share one.
pub proof fn law_every_kind_has_one_place(kind: MessageKind)
    ensures
        all_kinds().contains(kind),
        all_kinds().no_duplicates(),
        all_kinds().len() == 18,
{
    let kinds = all_kinds();
    let at: int = match kind {
        MessageKind::CandidateValidation => 0,
        MessageKind::CandidateBacking => 1,
        MessageKind::CandidateSelection => 2,
        MessageKind::StatementDistribution => 3,
        MessageKind::AvailabilityDistribution => 4,
        MessageKind::AvailabilityRecovery => 5,
        MessageKind::BitfieldSigning => 6,
        MessageKind::BitfieldDistribution => 7,
        MessageKind::Provisioner => 8,
        MessageKind::RuntimeApi => 9,
        MessageKind::AvailabilityStore => 10,
        MessageKind::NetworkBridge => 11,
        MessageKind::ChainApi => 12,
        MessageKind::CollationGeneration => 13,
        MessageKind::CollatorProtocol => 14,
        MessageKind::ApprovalDistribution => 15,
        MessageKind::ApprovalVoting => 16,
        MessageKind::GossipSupport => 17,
    };
    assert(kinds[at] == kind);
}

/// The subsystems whose meters are read are those that run, in their order, each with its own name
/// and meters: `at` lists their places.
pub proof fn law_running_subsystems_are_read<M>(subsystems: Seq<Option<(&'static str, M)>>) -> (at:
    Seq<int>)
    ensures
        running(subsystems).len() == at.len(),
        forall|j: int, k: int| 0 <= j < k < at.len() ==> #[trigger] at[j] < #[trigger] at[k],
        forall|k: int|
            0 <= k < at.len() ==> {
                &&& 0 <= #[trigger] at[k] < subsystems.len()
                &&& subsystems[at[k]] == Some(running(subsystems)[k])
            },
        forall|i: int|
            0 <= i < subsystems.len() && subsystems[i] is Some ==> #[trigger] at.contains(i),
    decreases subsystems.len(),
{
    if subsystems.len() == 0 {
        Seq::empty()
    } else {
        let n = subsystems.len() - 1;
        let before = law_running_subsystems_are_read(subsystems.drop_last());
        if subsystems[n] is Some {
            lemma_place_added(before, n);
            before.push(n)
        } else {
            before
        }
    }
}

/// The meters are read every 950 milliseconds, that is, twenty times in nineteen seconds.
pub proof fn law_meters_are_read_in_time()
    ensures
        20 * METRONOME_PERIOD_MILLIS == 19 * 1000,
{
}

/// A notification of the client becomes an event of the same sort about the same block: its hash,
/// and the parent and the number out of its header. The end of a stream becomes none.
pub proof fn law_notification_keeps_the_block<P>(notification: ClientNotification)
    ensures
        notification matches ClientNotification::Finality(Some(n)) ==> {
            &&& forwarded::<P>(notification) matches Some(Event::BlockFinalized(block))
            &&& block.hash == n.hash
            &&& block.parent_hash == n.header.parent_hash
            &&& block.number == n.header.number
        },
        notification matches ClientNotification::Import(Some(n)) ==> {
            &&& forwarded::<P>(notification) matches Some(Event::BlockImported(block))
            &&& block.hash == n.hash
            &&& block.parent_hash == n.header.parent_hash
            &&& block.number == n.header.number
        },
        forwarded::<P>(notification) is None <==> {
            ||| notification == ClientNotification::Finality(None)
            ||| notification == ClientNotification::Import(None)
            ||| notification == ClientNotification::Complete
        },
{
}

/// A run of notifications is forwarded one for one and in order, up to the first end of a stream
/// and no further.
pub proof fn law_forwarding_stops_at_the_first_end<P>(notifications: Seq<ClientNotification>)
    ensures
        forwarded_run::<P>(notifications).len() <= notifications.len(),
        forall|i: int|
            0 <= i < forwarded_run::<P>(notifications).len() ==> forwarded::<P>(
                #[trigger] notifications[i],
            ) == Some(forwarded_run::<P>(notifications)[i]),
        forwarded_run::<P>(notifications).len() < notifications.len() ==> forwarded::<P>(
            notifications[forwarded_run::<P>(notifications).len() as int],
        ) is None,
    decreases notifications.len(),
{
    if notifications.len() > 0 {
        let rest = notifications.drop_first();
        law_forwarding_stops_at_the_first_end::<P>(rest);
        assert forall|i: int|
            0 <= i < forwarded_run::<P>(notifications).len() implies forwarded::<P>(
            #[trigger] notifications[i],
        ) == Some(forwarded_run::<P>(notifications)[i]) by {
            if i > 0 {
                assert(notifications[i] == rest[i - 1]);
            }
        }
    }
}

/// What is on its way is what stands in the outbox, oldest first.
pub proof fn law_outbox_holds_what_is_on_its_way<P>(handler: Handler<P>)
    ensures
        handler@ == handler.0.outbox@,
{
}

} // verus!
