//! The closed event and effect vocabulary of the consensus component:
//! inbound events, outbound side-effect requests toward collaborators, and
//! the network-facing consensus message.

use crate::types::{BlockContext, BlockHeader, EraId, NodeId, ProtoBlock, PublicKey, Timestamp};
use crate::validators::ValidatorWeights;
use vstd::prelude::*;

verus! {

/// A consensus message exchanged between nodes.
#[derive(Clone, PartialEq, Eq, Debug)]
pub enum ConsensusMessage {
    /// A protocol message, to be handled by the instance in the specified era.
    Protocol { era_id: EraId, payload: Vec<u8> },
    /// A request for evidence against the specified validator, from any era
    /// that is still bonded in `era_id`.
    EvidenceRequest { era_id: EraId, pub_key: PublicKey },
}

/// The result of looking up the next era's validator weights.
#[derive(Clone, PartialEq, Eq, Debug)]
pub enum GetValidatorsResult {
    /// The weights are known.
    Success { weights: ValidatorWeights },
    /// The weights are not yet available; this is not success.
    NotYetAvailable,
    /// The lookup failed; this is not success.
    Failure,
}

/// A consensus component event.
#[derive(Clone, PartialEq, Eq, Debug)]
pub enum Event {
    /// An incoming network message.
    MessageReceived { sender: NodeId, msg: ConsensusMessage },
    /// A scheduled event to be handled by a specified era.
    Timer { era_id: EraId, timestamp: Timestamp },
    /// The data required to propose a new block has been received.
    NewProtoBlock { era_id: EraId, proto_block: ProtoBlock, block_context: BlockContext },
    /// The proto-block has been validated and can now be added to the
    /// protocol state.
    AcceptProtoBlock { era_id: EraId, proto_block: ProtoBlock },
    /// The proto-block turned out to be invalid; the sender is recorded for
    /// possible sanctioning.
    InvalidProtoBlock { era_id: EraId, sender: NodeId, proto_block: ProtoBlock },
    /// A block has been appended to the canonical chain.
    LinearChainBlock { block_header: BlockHeader },
    /// Response from the contract runtime, containing the validators for the
    /// new era.
    GetValidatorsResponse { block_header: BlockHeader, result: GetValidatorsResult },
}

/// An event that carries only valid data into the supervisor.
pub open spec fn event_wf(ev: Event) -> bool {
    match ev {
        Event::GetValidatorsResponse { result: GetValidatorsResult::Success { weights }, .. } =>
            weights.wf(),
        _ => true,
    }
}

/// A typed side-effecting request toward networking, storage, validation,
/// scheduling or execution; the translation layer performs it and feeds the
/// response back as a new `Event`.
#[derive(Clone, PartialEq, Eq, Debug)]
pub enum Effect {
    /// Send a consensus message to one peer.
    SendMessage { to: NodeId, msg: ConsensusMessage },
    /// Send a consensus message to every peer.
    Broadcast { msg: ConsensusMessage },
    /// Ask to be woken with a `Timer` event for this era at this time.
    ScheduleTimer { era_id: EraId, timestamp: Timestamp },
    /// Ask the external validator for a result on this proto-block.
    RequestValidation { era_id: EraId, proto_block: ProtoBlock },
    /// Hand a finalized proto-block and its context to block execution.
    RequestExecution { era_id: EraId, proto_block: ProtoBlock, context: BlockContext },
    /// Ask the execution layer for the validator weights of the era that
    /// follows this switch block.
    RequestValidators { block_header: BlockHeader },
    /// Answer an evidence request: the validator equivocated in the era.
    ProvideEvidence { to: NodeId, era_id: EraId, pub_key: PublicKey },
    /// The era produced its last finalized block; its final fault list is
    /// attached.
    AnnounceEraEnd { era_id: EraId, faulty: Vec<PublicKey> },
    /// The node cannot safely continue: the validators for the era after
    /// this one could not be obtained.
    FatalError { era_id: EraId },
}

/// The effects contain an execution request for `c` in era `e`.
pub open spec fn has_execution_request(es: Seq<Effect>, e: EraId, c: ProtoBlock) -> bool {
    exists|i: int|
        0 <= i < es.len() && ((#[trigger] es[i]) matches Effect::RequestExecution {
            era_id: e2,
            proto_block: c2,
            context: _,
        } && e2 == e && c2 == c)
}

/// The effects contain a timer request for era `e`.
pub open spec fn has_timer_request(es: Seq<Effect>, e: EraId) -> bool {
    exists|i: int|
        0 <= i < es.len() && ((#[trigger] es[i]) matches Effect::ScheduleTimer {
            era_id: e2,
            timestamp: _,
        } && e2 == e)
}

/// The effects contain an era-end announcement for era `e`.
pub open spec fn has_era_end(es: Seq<Effect>, e: EraId) -> bool {
    exists|i: int|
        0 <= i < es.len() && ((#[trigger] es[i]) matches Effect::AnnounceEraEnd {
            era_id: e2,
            faulty: _,
        } && e2 == e)
}

/// The bounds a reactor's event type must satisfy for the era supervisor to
/// work with it: it can absorb every event the consensus component emits.
pub trait ReactorEventT: From<Event> {

}

impl<REv: From<Event>> ReactorEventT for REv {

}

} // verus!
