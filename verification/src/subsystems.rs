//! The subsystems that the overseer runs, and the messages they consume.

use vstd::prelude::*;

use crate::dispatch::SubSysField;

verus! {

/// The kind of a message. Each subsystem consumes one kind.
#[derive(Clone, Copy, Debug, PartialEq, Eq, Structural)]
pub enum MessageKind {
    CandidateValidation,
    CandidateBacking,
    CandidateSelection,
    StatementDistribution,
    AvailabilityDistribution,
    AvailabilityRecovery,
    BitfieldSigning,
    BitfieldDistribution,
    Provisioner,
    RuntimeApi,
    AvailabilityStore,
    NetworkBridge,
    ChainApi,
    CollationGeneration,
    CollatorProtocol,
    ApprovalDistribution,
    ApprovalVoting,
    GossipSupport,
}

/// A message to one of the subsystems.
#[derive(Debug, PartialEq, Eq)]
pub struct AllMessages<P> {
    /// The kind of the message, and with it the subsystem that consumes it.
    pub kind: MessageKind,
    /// What the message says.
    pub payload: P,
}

/// The message of a kind, if there is something to say.
pub open spec fn message_of<P>(kind: MessageKind, payload: Option<P>) -> Seq<AllMessages<P>> {
    match payload {
        Some(payload) => seq![AllMessages { kind, payload }],
        None => Seq::empty(),
    }
}

/// The messages that a network event becomes, given the event as seen by each of the subsystems
/// that are told of network events.
pub open spec fn network_messages<P>(
    statement: Option<P>,
    bitfield: Option<P>,
    approval: Option<P>,
) -> Seq<AllMessages<P>> {
    message_of(MessageKind::StatementDistribution, statement) + message_of(
        MessageKind::BitfieldDistribution,
        bitfield,
    ) + message_of(MessageKind::ApprovalDistribution, approval)
}

impl<P> AllMessages<P> {
    /// Adds the message of a kind, if there is something to say.
    fn add_message(messages: &mut Vec<AllMessages<P>>, kind: MessageKind, payload: Option<P>)
        ensures
            final(messages)@ == old(messages)@ + message_of(kind, payload),
    {
        if let Some(payload) = payload {
            messages.push(AllMessages { kind, payload });
        }
        assert(messages@ =~= old(messages)@ + message_of(kind, payload));
    }

    /// The messages that a network event becomes, given the event as seen by each of the
    /// subsystems that are told of network events; `None` where it does not concern the
    /// subsystem.
    pub fn dispatch(
        statement: Option<P>,
        bitfield: Option<P>,
        approval: Option<P>,
    ) -> (messages: Vec<AllMessages<P>>)
        ensures
            messages@ == network_messages(statement, bitfield, approval),
            statement matches Some(payload) ==> messages@.contains(
                AllMessages { kind: MessageKind::StatementDistribution, payload },
            ),
            bitfield matches Some(payload) ==> messages@.contains(
                AllMessages { kind: MessageKind::BitfieldDistribution, payload },
            ),
            approval matches Some(payload) ==> messages@.contains(
                AllMessages { kind: MessageKind::ApprovalDistribution, payload },
            ),
            messages@.len() == (if statement is Some {
                1int
            } else {
                0
            }) + (if bitfield is Some {
                1int
            } else {
                0
            }) + (if approval is Some {
                1int
            } else {
                0
            }),
    {
        let mut messages: Vec<AllMessages<P>> = Vec::new();
        Self::add_message(&mut messages, MessageKind::StatementDistribution, statement);
        Self::add_message(&mut messages, MessageKind::BitfieldDistribution, bitfield);
        Self::add_message(&mut messages, MessageKind::ApprovalDistribution, approval);
        proof {
            let first: int = if statement is Some {
                1
            } else {
                0
            };
            let second: int = if bitfield is Some {
                first + 1
            } else {
                first
            };
            assert(messages@ =~= network_messages(statement, bitfield, approval));
            assert(statement is Some ==> messages@.contains(messages@[0]));
            assert(bitfield is Some ==> messages@.contains(messages@[first]));
            assert(approval is Some ==> messages@.contains(messages@[second]));
        }
        messages
    }

    /// The messages that a network event becomes. `focus` gives the event as seen by the
    /// subsystem that consumes the kind, if the event concerns it.
    pub fn dispatch_iter<F: Fn(MessageKind) -> Option<P>>(focus: F) -> (messages: Vec<
        AllMessages<P>,
    >)
        requires
            forall|kind: MessageKind| call_requires(focus, (kind,)),
        ensures
            exists|statement: Option<P>, bitfield: Option<P>, approval: Option<P>|
                {
                    &&& call_ensures(focus, (MessageKind::StatementDistribution,), statement)
                    &&& call_ensures(focus, (MessageKind::BitfieldDistribution,), bitfield)
                    &&& call_ensures(focus, (MessageKind::ApprovalDistribution,), approval)
                    &&& messages@ == #[trigger] network_messages(statement, bitfield, approval)
                },
    {
        let statement = focus(MessageKind::StatementDistribution);
        let bitfield = focus(MessageKind::BitfieldDistribution);
        let approval = focus(MessageKind::ApprovalDistribution);
        Self::dispatch(statement, bitfield, approval)
    }
}

/// All kinds of messages, in the order in which the overseer holds their subsystems.
pub open spec fn all_kinds() -> Seq<MessageKind> {
    seq![
        MessageKind::CandidateValidation,
        MessageKind::CandidateBacking,
        MessageKind::CandidateSelection,
        MessageKind::StatementDistribution,
        MessageKind::AvailabilityDistribution,
        MessageKind::AvailabilityRecovery,
        MessageKind::BitfieldSigning,
        MessageKind::BitfieldDistribution,
        MessageKind::Provisioner,
        MessageKind::RuntimeApi,
        MessageKind::AvailabilityStore,
        MessageKind::NetworkBridge,
        MessageKind::ChainApi,
        MessageKind::CollationGeneration,
        MessageKind::CollatorProtocol,
        MessageKind::ApprovalDistribution,
        MessageKind::ApprovalVoting,
        MessageKind::GossipSupport,
    ]
}

impl MessageKind {
    /// Whether the subsystem of this kind is told of network events.
    pub open spec fn dispatched(self) -> bool {
        ||| self == MessageKind::StatementDistribution
        ||| self == MessageKind::BitfieldDistribution
        ||| self == MessageKind::ApprovalDistribution
    }

    /// Whether the subsystem of this kind runs on the pool for tasks that block.
    pub open spec fn blocks(self) -> bool {
        ||| self == MessageKind::BitfieldSigning
        ||| self == MessageKind::RuntimeApi
        ||| self == MessageKind::AvailabilityStore
        ||| self == MessageKind::ChainApi
    }

    /// The name of the subsystem that consumes this kind.
    pub open spec fn subsystem_name(self) -> &'static str {
        match self {
            MessageKind::CandidateValidation => "candidate_validation",
            MessageKind::CandidateBacking => "candidate_backing",
            MessageKind::CandidateSelection => "candidate_selection",
            MessageKind::StatementDistribution => "statement_distribution",
            MessageKind::AvailabilityDistribution => "availability_distribution",
            MessageKind::AvailabilityRecovery => "availability_recovery",
            MessageKind::BitfieldSigning => "bitfield_signing",
            MessageKind::BitfieldDistribution => "bitfield_distribution",
            MessageKind::Provisioner => "provisioner",
            MessageKind::RuntimeApi => "runtime_api",
            MessageKind::AvailabilityStore => "availability_store",
            MessageKind::NetworkBridge => "network_bridge",
            MessageKind::ChainApi => "chain_api",
            MessageKind::CollationGeneration => "collation_generation",
            MessageKind::CollatorProtocol => "collator_protocol",
            MessageKind::ApprovalDistribution => "approval_distribution",
            MessageKind::ApprovalVoting => "approval_voting",
            MessageKind::GossipSupport => "gossip_support",
        }
    }

    /// The declaration of the subsystem that consumes this kind.
    pub open spec fn declaration(self) -> SubSysField<&'static str, MessageKind> {
        SubSysField {
            name: self.subsystem_name(),
            consumes: self,
            no_dispatch: !self.dispatched(),
            blocking: self.blocks(),
        }
    }

    /// The position of this kind's subsystem among the overseer's.
    pub fn position(&self) -> (at: usize)
        ensures
            at < all_kinds().len(),
            all_kinds()[at as int] == *self,
            *self == MessageKind::CandidateValidation <==> at == 0,
            *self == MessageKind::CandidateBacking <==> at == 1,
            *self == MessageKind::CandidateSelection <==> at == 2,
            *self == MessageKind::StatementDistribution <==> at == 3,
            *self == MessageKind::AvailabilityDistribution <==> at == 4,
            *self == MessageKind::AvailabilityRecovery <==> at == 5,
            *self == MessageKind::BitfieldSigning <==> at == 6,
            *self == MessageKind::BitfieldDistribution <==> at == 7,
            *self == MessageKind::Provisioner <==> at == 8,
            *self == MessageKind::RuntimeApi <==> at == 9,
            *self == MessageKind::AvailabilityStore <==> at == 10,
            *self == MessageKind::NetworkBridge <==> at == 11,
            *self == MessageKind::ChainApi <==> at == 12,
            *self == MessageKind::CollationGeneration <==> at == 13,
            *self == MessageKind::CollatorProtocol <==> at == 14,
            *self == MessageKind::ApprovalDistribution <==> at == 15,
            *self == MessageKind::ApprovalVoting <==> at == 16,
            *self == MessageKind::GossipSupport <==> at == 17,
    {
        match self {
            MessageKind::CandidateValidation => 0,
            MessageKind::CandidateBacking => 1,
            MessageKind::CandidateSelection => 2,
            MessageKind::StatementDistribution => 3,
            MessageKind::AvailabilityDistribution => 4,
            MessageKind::AvailabilityRecovery => 5,
            MessageKind::BitfieldSigning => 6,
            MessageKind::BitfieldDistribution => 7,
            MessageKind::Provisioner => 8,
            MessageKind::RuntimeApi => 9,
            MessageKind::AvailabilityStore => 10,
            MessageKind::NetworkBridge => 11,
            MessageKind::ChainApi => 12,
            MessageKind::CollationGeneration => 13,
            MessageKind::CollatorProtocol => 14,
            MessageKind::ApprovalDistribution => 15,
            MessageKind::ApprovalVoting => 16,
            MessageKind::GossipSupport => 17,
        }
    }
}

/// Declares a subsystem.
fn declare(
    name: &'static str,
    consumes: MessageKind,
    no_dispatch: bool,
    blocking: bool,
) -> (field: SubSysField<&'static str, MessageKind>)
    ensures
        field == (SubSysField { name, consumes, no_dispatch, blocking }),
{
    SubSysField { name, consumes, no_dispatch, blocking }
}

/// The subsystems that the overseer holds, in order.
pub fn declarations() -> (fields: Vec<SubSysField<&'static str, MessageKind>>)
    ensures
        fields@ == all_kinds().map_values(|kind: MessageKind| kind.declaration()),
        fields@.len() == 18,
        fields@[0].name == "candidate_validation" && fields@[0].consumes == MessageKind::CandidateValidation,
        fields@[1].name == "candidate_backing" && fields@[1].consumes == MessageKind::CandidateBacking,
        fields@[2].name == "candidate_selection" && fields@[2].consumes == MessageKind::CandidateSelection,
        fields@[3].name == "statement_distribution" && fields@[3].consumes == MessageKind::StatementDistribution,
        fields@[4].name == "availability_distribution" && fields@[4].consumes == MessageKind::AvailabilityDistribution,
        fields@[5].name == "availability_recovery" && fields@[5].consumes == MessageKind::AvailabilityRecovery,
        fields@[6].name == "bitfield_signing" && fields@[6].consumes == MessageKind::BitfieldSigning,
        fields@[7].name == "bitfield_distribution" && fields@[7].consumes == MessageKind::BitfieldDistribution,
        fields@[8].name == "provisioner" && fields@[8].consumes == MessageKind::Provisioner,
        fields@[9].name == "runtime_api" && fields@[9].consumes == MessageKind::RuntimeApi,
        fields@[10].name == "availability_store" && fields@[10].consumes == MessageKind::AvailabilityStore,
        fields@[11].name == "network_bridge" && fields@[11].consumes == MessageKind::NetworkBridge,
        fields@[12].name == "chain_api" && fields@[12].consumes == MessageKind::ChainApi,
        fields@[13].name == "collation_generation" && fields@[13].consumes == MessageKind::CollationGeneration,
        fields@[14].name == "collator_protocol" && fields@[14].consumes == MessageKind::CollatorProtocol,
        fields@[15].name == "approval_distribution" && fields@[15].consumes == MessageKind::ApprovalDistribution,
        fields@[16].name == "approval_voting" && fields@[16].consumes == MessageKind::ApprovalVoting,
        fields@[17].name == "gossip_support" && fields@[17].consumes == MessageKind::GossipSupport,
{
    let fields: Vec<SubSysField<&'static str, MessageKind>> =
        vec![
        declare("candidate_validation", MessageKind::CandidateValidation, true, false),
        declare("candidate_backing", MessageKind::CandidateBacking, true, false),
        declare("candidate_selection", MessageKind::CandidateSelection, true, false),
        declare("statement_distribution", MessageKind::StatementDistribution, false, false),
        declare("availability_distribution", MessageKind::AvailabilityDistribution, true, false),
        declare("availability_recovery", MessageKind::AvailabilityRecovery, true, false),
        declare("bitfield_signing", MessageKind::BitfieldSigning, true, true),
        declare("bitfield_distribution", MessageKind::BitfieldDistribution, false, false),
        declare("provisioner", MessageKind::Provisioner, true, false),
        declare("runtime_api", MessageKind::RuntimeApi, true, true),
        declare("availability_store", MessageKind::AvailabilityStore, true, true),
        declare("network_bridge", MessageKind::NetworkBridge, true, false),
        declare("chain_api", MessageKind::ChainApi, true, true),
        declare("collation_generation", MessageKind::CollationGeneration, true, false),
        declare("collator_protocol", MessageKind::CollatorProtocol, true, false),
        declare("approval_distribution", MessageKind::ApprovalDistribution, false, false),
        declare("approval_voting", MessageKind::ApprovalVoting, true, false),
        declare("gossip_support", MessageKind::GossipSupport, true, false),
    ];
    assert(fields@ =~= all_kinds().map_values(|kind: MessageKind| kind.declaration()));
    fields
}

/// One of each subsystem.
pub struct AllSubsystems<T> {
    pub candidate_validation: T,
    pub candidate_backing: T,
    pub candidate_selection: T,
    pub statement_distribution: T,
    pub availability_distribution: T,
    pub availability_recovery: T,
    pub bitfield_signing: T,
    pub bitfield_distribution: T,
    pub provisioner: T,
    pub runtime_api: T,
    pub availability_store: T,
    pub network_bridge: T,
    pub chain_api: T,
    pub collation_generation: T,
    pub collator_protocol: T,
    pub approval_distribution: T,
    pub approval_voting: T,
    pub gossip_support: T,
}

impl<T> AllSubsystems<T> {
    /// The subsystem that consumes messages of the given kind.
    pub open spec fn of(self, kind: MessageKind) -> T {
        match kind {
            MessageKind::CandidateValidation => self.candidate_validation,
            MessageKind::CandidateBacking => self.candidate_backing,
            MessageKind::CandidateSelection => self.candidate_selection,
            MessageKind::StatementDistribution => self.statement_distribution,
            MessageKind::AvailabilityDistribution => self.availability_distribution,
            MessageKind::AvailabilityRecovery => self.availability_recovery,
            MessageKind::BitfieldSigning => self.bitfield_signing,
            MessageKind::BitfieldDistribution => self.bitfield_distribution,
            MessageKind::Provisioner => self.provisioner,
            MessageKind::RuntimeApi => self.runtime_api,
            MessageKind::AvailabilityStore => self.availability_store,
            MessageKind::NetworkBridge => self.network_bridge,
            MessageKind::ChainApi => self.chain_api,
            MessageKind::CollationGeneration => self.collation_generation,
            MessageKind::CollatorProtocol => self.collator_protocol,
            MessageKind::ApprovalDistribution => self.approval_distribution,
            MessageKind::ApprovalVoting => self.approval_voting,
            MessageKind::GossipSupport => self.gossip_support,
        }
    }

    /// The subsystems in the order in which the overseer holds them.
    pub fn in_order(self) -> (subsystems: Vec<T>)
        ensures
            subsystems@ == all_kinds().map_values(|kind: MessageKind| self.of(kind)),
            subsystems@.len() == 18,
            subsystems@[0] == self.candidate_validation,
            subsystems@[1] == self.candidate_backing,
            subsystems@[2] == self.candidate_selection,
            subsystems@[3] == self.statement_distribution,
            subsystems@[4] == self.availability_distribution,
            subsystems@[5] == self.availability_recovery,
            subsystems@[6] == self.bitfield_signing,
            subsystems@[7] == self.bitfield_distribution,
            subsystems@[8] == self.provisioner,
            subsystems@[9] == self.runtime_api,
            subsystems@[10] == self.availability_store,
            subsystems@[11] == self.network_bridge,
            subsystems@[12] == self.chain_api,
            subsystems@[13] == self.collation_generation,
            subsystems@[14] == self.collator_protocol,
            subsystems@[15] == self.approval_distribution,
            subsystems@[16] == self.approval_voting,
            subsystems@[17] == self.gossip_support,
    {
        let subsystems: Vec<T> =
            vec![
            self.candidate_validation,
            self.candidate_backing,
            self.candidate_selection,
            self.statement_distribution,
            self.availability_distribution,
            self.availability_recovery,
            self.bitfield_signing,
            self.bitfield_distribution,
            self.provisioner,
            self.runtime_api,
            self.availability_store,
            self.network_bridge,
            self.chain_api,
            self.collation_generation,
            self.collator_protocol,
            self.approval_distribution,
            self.approval_voting,
            self.gossip_support,
        ];
        assert(subsystems@ =~= all_kinds().map_values(|kind: MessageKind| self.of(kind)));
        subsystems
    }
}

} // verus!
