use era_consensus::era::{encode_vote, decode_vote, EraState, Vote};
use era_consensus::messages::{ConsensusMessage, Effect, Event, GetValidatorsResult};
use era_consensus::supervisor::{Config, EraSupervisor};
use era_consensus::types::{BlockContext, BlockHeader, EraId, NodeId, ProtoBlock, PublicKey, Timestamp};
use era_consensus::validators::ValidatorWeights;

const A: PublicKey = PublicKey(1);
const B: PublicKey = PublicKey(2);
const C: PublicKey = PublicKey(3);
const D: PublicKey = PublicKey(4);

fn four_validators() -> ValidatorWeights {
    ValidatorWeights::new(vec![(A, 3), (B, 3), (C, 3), (D, 1)]).unwrap()
}

fn config(era_length: u64) -> Config {
    Config { era_length, timer_interval: 10, bonded_eras: 5 }
}

fn supervisor(era_length: u64) -> EraSupervisor {
    EraSupervisor::new(EraId(0), four_validators(), config(era_length), None)
}

fn ctx(era: u64) -> BlockContext {
    BlockContext { era_id: EraId(era), timestamp: Timestamp(100), height: 0 }
}

fn vote_msg(era: u64, validator: PublicKey, round: u64, candidate: u64) -> ConsensusMessage {
    let payload = encode_vote(&Vote { validator, round, candidate: ProtoBlock(candidate) });
    ConsensusMessage::Protocol { era_id: EraId(era), payload }
}

fn deliver(s: &mut EraSupervisor, msg: ConsensusMessage) -> Vec<Effect> {
    s.handle_message(NodeId(7), msg)
}

#[test]
fn vote_payload_round_trips_byte_identically() {
    let v = Vote { validator: D, round: 5, candidate: ProtoBlock(42) };
    let bytes = encode_vote(&v);
    assert_eq!(bytes.len(), 24);
    assert_eq!(decode_vote(&bytes), Some(v));
    assert_eq!(encode_vote(&decode_vote(&bytes).unwrap()), bytes);
}

#[test]
fn any_parsed_payload_reencodes_byte_identically() {
    // 24 arbitrary bytes decode to a vote whose encoding is those bytes.
    let bytes: Vec<u8> = (0u8..24).map(|b| b.wrapping_mul(37).wrapping_add(11)).collect();
    let v = decode_vote(&bytes).unwrap();
    assert_eq!(encode_vote(&v), bytes);
}

#[test]
fn malformed_payload_is_rejected_without_effect() {
    let mut s = supervisor(10);
    let r = deliver(&mut s, ConsensusMessage::Protocol { era_id: EraId(0), payload: vec![1, 2, 3] });
    assert!(r.is_empty());
    assert!(s.eras[0].votes.is_empty());
}

#[test]
fn trailing_bytes_make_a_payload_malformed() {
    let mut payload = encode_vote(&Vote { validator: A, round: 1, candidate: ProtoBlock(1) });
    payload.push(0);
    assert_eq!(decode_vote(&payload), None);
}

#[test]
fn unbonded_sender_is_ignored() {
    let mut s = supervisor(10);
    deliver(&mut s, vote_msg(0, PublicKey(99), 1, 1));
    assert!(s.eras[0].votes.is_empty());
}

#[test]
fn message_for_unknown_era_is_dropped_silently() {
    let mut s = supervisor(10);
    let r = deliver(&mut s, vote_msg(77, A, 1, 1));
    assert!(r.is_empty());
    assert!(s.eras[0].votes.is_empty());
}

#[test]
fn proposal_issues_exactly_one_validation_request() {
    let mut s = supervisor(10);
    let r = s.handle_new_proto_block(EraId(0), ProtoBlock(42), ctx(0));
    assert_eq!(r, vec![Effect::RequestValidation { era_id: EraId(0), proto_block: ProtoBlock(42) }]);
}

#[test]
fn duplicate_proposals_are_coalesced() {
    // Two duplicate proposals for the identical candidate before the
    // validation response arrives result in exactly one outstanding request.
    let mut s = supervisor(10);
    let first = s.handle_new_proto_block(EraId(0), ProtoBlock(42), ctx(0));
    assert_eq!(first.len(), 1);
    let second = s.handle_new_proto_block(EraId(0), ProtoBlock(42), ctx(0));
    assert!(second.is_empty());
    let third = s.handle_new_proto_block(EraId(0), ProtoBlock(42), ctx(0));
    assert!(third.is_empty());
    assert_eq!(s.eras[0].candidates.len(), 1);
}

#[test]
fn equivocation_discounts_weight_and_lists_evidence() {
    // Four validators with weights [3, 3, 3, 1] (total 10); D (weight 1)
    // sends two conflicting messages for round 5. Afterwards quorum
    // arithmetic uses the remaining total of 9, and D is listed in evidence.
    let mut s = supervisor(10);
    s.handle_new_proto_block(EraId(0), ProtoBlock(42), ctx(0));
    s.handle_accept_proto_block(EraId(0), ProtoBlock(42));
    deliver(&mut s, vote_msg(0, D, 5, 42));
    deliver(&mut s, vote_msg(0, D, 5, 43));
    assert_eq!(s.eras[0].faulty, vec![D]);
    assert_eq!(s.evidence.len(), 1);
    assert_eq!(s.evidence[0].era_id, EraId(0));
    assert_eq!(s.evidence[0].pub_key, D);
    // A and B supply weight 6 of the honest 9: not strictly more than 2/3.
    deliver(&mut s, vote_msg(0, A, 5, 42));
    deliver(&mut s, vote_msg(0, B, 5, 42));
    assert!(s.eras[0].finalized.is_empty());
    // C completes the quorum: 9 of 9 is strictly more than 2/3 of 9.
    let r = deliver(&mut s, vote_msg(0, C, 5, 42));
    assert_eq!(s.eras[0].finalized, vec![ProtoBlock(42)]);
    assert!(r.iter().any(|e| matches!(
        e,
        Effect::RequestExecution { era_id, proto_block, .. }
            if *era_id == EraId(0) && *proto_block == ProtoBlock(42)
    )));
}

#[test]
fn equivocation_is_detected_in_either_delivery_order() {
    let mut s1 = supervisor(10);
    deliver(&mut s1, vote_msg(0, D, 5, 42));
    deliver(&mut s1, vote_msg(0, D, 5, 43));
    assert_eq!(s1.eras[0].faulty, vec![D]);

    let mut s2 = supervisor(10);
    deliver(&mut s2, vote_msg(0, D, 5, 43));
    deliver(&mut s2, vote_msg(0, D, 5, 42));
    assert_eq!(s2.eras[0].faulty, vec![D]);
}

#[test]
fn duplicate_delivery_leaves_instance_state_unchanged() {
    let mut s = supervisor(10);
    s.handle_new_proto_block(EraId(0), ProtoBlock(42), ctx(0));
    s.handle_accept_proto_block(EraId(0), ProtoBlock(42));
    deliver(&mut s, vote_msg(0, A, 1, 42));
    let votes_once = s.eras[0].votes.clone();
    let faulty_once = s.eras[0].faulty.clone();
    let finalized_once = s.eras[0].finalized.clone();
    let r = deliver(&mut s, vote_msg(0, A, 1, 42));
    assert!(r.is_empty());
    assert_eq!(s.eras[0].votes, votes_once);
    assert_eq!(s.eras[0].faulty, faulty_once);
    assert_eq!(s.eras[0].finalized, finalized_once);
}

#[test]
fn events_for_one_era_never_touch_another() {
    let mut s = supervisor(10);
    // Create era 1 from the switch block of era 0.
    let header = BlockHeader { era_id: EraId(0), height: 9, timestamp: Timestamp(500), switch_block: true };
    s.handle_event(Event::GetValidatorsResponse {
        block_header: header,
        result: GetValidatorsResult::Success { weights: four_validators() },
    });
    assert_eq!(s.eras.len(), 2);
    assert_eq!(s.eras[1].era_id, EraId(1));
    // Activity in era 1 leaves era 0 untouched.
    s.handle_new_proto_block(EraId(1), ProtoBlock(7), ctx(1));
    deliver(&mut s, vote_msg(1, A, 1, 7));
    assert!(s.eras[0].votes.is_empty());
    assert!(s.eras[0].candidates.is_empty());
    // And activity in era 0 leaves era 1 untouched.
    deliver(&mut s, vote_msg(0, B, 1, 9));
    assert_eq!(s.eras[1].votes.len(), 1);
    assert_eq!(s.eras[0].votes.len(), 1);
}

#[test]
fn era_end_is_announced_and_later_timers_are_no_ops() {
    // Era 7's instance reaches its end; a timer delivered afterwards is a
    // no-op and produces no effects.
    let mut s = EraSupervisor::new(EraId(7), four_validators(), config(1), None);
    s.handle_new_proto_block(EraId(7), ProtoBlock(1), ctx(7));
    s.handle_accept_proto_block(EraId(7), ProtoBlock(1));
    deliver(&mut s, vote_msg(7, A, 1, 1));
    deliver(&mut s, vote_msg(7, B, 1, 1));
    let r = deliver(&mut s, vote_msg(7, C, 1, 1));
    assert_eq!(s.eras[0].finalized, vec![ProtoBlock(1)]);
    assert!(r.iter().any(|e| matches!(e, Effect::AnnounceEraEnd { era_id, .. } if *era_id == EraId(7))));
    assert_eq!(s.eras[0].state, EraState::Retired);
    let timer_effects = s.handle_timer(EraId(7), Timestamp(999));
    assert!(timer_effects.is_empty());
}

#[test]
fn evidence_survives_the_eras_retirement() {
    // After era 0 is retired, an evidence request for a still-bonded
    // validator is still answered from the cross-era index.
    let mut s = supervisor(1);
    deliver(&mut s, vote_msg(0, D, 5, 42));
    deliver(&mut s, vote_msg(0, D, 5, 43));
    s.handle_new_proto_block(EraId(0), ProtoBlock(1), ctx(0));
    s.handle_accept_proto_block(EraId(0), ProtoBlock(1));
    deliver(&mut s, vote_msg(0, A, 1, 1));
    deliver(&mut s, vote_msg(0, B, 1, 1));
    deliver(&mut s, vote_msg(0, C, 1, 1));
    assert_eq!(s.eras[0].state, EraState::Retired);
    let r = deliver(&mut s, ConsensusMessage::EvidenceRequest { era_id: EraId(0), pub_key: D });
    assert_eq!(r.len(), 1);
    assert!(matches!(
        r[0],
        Effect::ProvideEvidence { era_id, pub_key, .. }
            if era_id == EraId(0) && pub_key == D
    ));
}

#[test]
fn evidence_request_without_evidence_takes_no_action() {
    // A negative cannot be proved: no evidence, no answer.
    let mut s = supervisor(10);
    let r = deliver(&mut s, ConsensusMessage::EvidenceRequest { era_id: EraId(0), pub_key: A });
    assert!(r.is_empty());
}

#[test]
fn evidence_request_covers_earlier_eras() {
    // Evidence recorded for era 0 answers a request that names era 3.
    let mut s = supervisor(10);
    deliver(&mut s, vote_msg(0, D, 5, 42));
    deliver(&mut s, vote_msg(0, D, 5, 43));
    let r = deliver(&mut s, ConsensusMessage::EvidenceRequest { era_id: EraId(3), pub_key: D });
    assert_eq!(r.len(), 1);
}

#[test]
fn rejected_proto_block_records_the_sender() {
    let mut s = supervisor(10);
    s.handle_new_proto_block(EraId(0), ProtoBlock(42), ctx(0));
    let r = s.handle_invalid_proto_block(EraId(0), NodeId(13), ProtoBlock(42));
    assert!(r.is_empty());
    assert_eq!(s.eras[0].suspects, vec![NodeId(13)]);
    // The rejected content is never reused: votes for it cannot finalize it.
    deliver(&mut s, vote_msg(0, A, 1, 42));
    deliver(&mut s, vote_msg(0, B, 1, 42));
    deliver(&mut s, vote_msg(0, C, 1, 42));
    deliver(&mut s, vote_msg(0, D, 1, 42));
    assert!(s.eras[0].finalized.is_empty());
}

#[test]
fn switch_block_requests_next_era_validators() {
    let mut s = supervisor(10);
    let header = BlockHeader { era_id: EraId(0), height: 9, timestamp: Timestamp(500), switch_block: true };
    let r = s.handle_event(Event::LinearChainBlock { block_header: header });
    assert_eq!(r, vec![Effect::RequestValidators { block_header: header }]);
    let plain = BlockHeader { era_id: EraId(0), height: 3, timestamp: Timestamp(200), switch_block: false };
    assert!(s.handle_event(Event::LinearChainBlock { block_header: plain }).is_empty());
}

#[test]
fn new_era_gets_a_bootstrap_timer() {
    let mut s = supervisor(10);
    let header = BlockHeader { era_id: EraId(0), height: 9, timestamp: Timestamp(500), switch_block: true };
    let r = s.handle_get_validators_response(header, four_validators());
    assert!(r.iter().any(|e| matches!(
        e,
        Effect::ScheduleTimer { era_id, timestamp }
            if *era_id == EraId(1) && *timestamp == Timestamp(510)
    )));
    assert_eq!(s.current_era, EraId(1));
    // Creating the same era twice is a no-op.
    let again = s.handle_get_validators_response(header, four_validators());
    assert!(again.is_empty());
    assert_eq!(s.eras.len(), 2);
}

#[test]
fn failed_validators_lookup_is_fatal() {
    let mut s = supervisor(10);
    let header = BlockHeader { era_id: EraId(0), height: 9, timestamp: Timestamp(500), switch_block: true };
    let r = s.handle_event(Event::GetValidatorsResponse {
        block_header: header,
        result: GetValidatorsResult::Failure,
    });
    assert_eq!(r, vec![Effect::FatalError { era_id: EraId(0) }]);
    let r2 = s.handle_event(Event::GetValidatorsResponse {
        block_header: header,
        result: GetValidatorsResult::NotYetAvailable,
    });
    assert_eq!(r2, vec![Effect::FatalError { era_id: EraId(0) }]);
}

#[test]
fn timer_always_reschedules_an_active_era() {
    let mut s = supervisor(10);
    let r = s.handle_timer(EraId(0), Timestamp(40));
    assert_eq!(r, vec![Effect::ScheduleTimer { era_id: EraId(0), timestamp: Timestamp(50) }]);
}

#[test]
fn validator_node_votes_on_its_own_timer() {
    // This node is validator A; a timer makes it broadcast a vote for the
    // accepted candidate, and its own weight counts toward finality.
    let mut s = EraSupervisor::new(EraId(0), four_validators(), config(10), Some(A));
    s.handle_new_proto_block(EraId(0), ProtoBlock(42), ctx(0));
    s.handle_accept_proto_block(EraId(0), ProtoBlock(42));
    let r = s.handle_timer(EraId(0), Timestamp(40));
    assert!(r.iter().any(|e| matches!(e, Effect::Broadcast { .. })));
    assert_eq!(s.eras[0].votes.len(), 1);
    assert_eq!(s.eras[0].votes[0], Vote { validator: A, round: 1, candidate: ProtoBlock(42) });
    // B and C vote in the same round: combined weight 9 of 10 finalizes.
    deliver(&mut s, vote_msg(0, B, 1, 42));
    let r2 = deliver(&mut s, vote_msg(0, C, 1, 42));
    assert_eq!(s.eras[0].finalized, vec![ProtoBlock(42)]);
    assert!(!r2.is_empty());
}

#[test]
fn votes_arriving_before_acceptance_still_finalize() {
    // Votes recorded while validation is outstanding count once the
    // result arrives: the acceptance itself triggers the finality check.
    let mut s = supervisor(10);
    s.handle_new_proto_block(EraId(0), ProtoBlock(42), ctx(0));
    deliver(&mut s, vote_msg(0, A, 2, 42));
    deliver(&mut s, vote_msg(0, B, 2, 42));
    deliver(&mut s, vote_msg(0, C, 2, 42));
    assert!(s.eras[0].finalized.is_empty());
    let r = s.handle_accept_proto_block(EraId(0), ProtoBlock(42));
    assert_eq!(s.eras[0].finalized, vec![ProtoBlock(42)]);
    assert!(r.iter().any(|e| matches!(e, Effect::RequestExecution { .. })));
}

#[test]
fn finalized_positions_never_change() {
    // Once a proto-block is finalized at a position, later traffic appends
    // but never rewrites.
    let mut s = supervisor(10);
    s.handle_new_proto_block(EraId(0), ProtoBlock(1), ctx(0));
    s.handle_accept_proto_block(EraId(0), ProtoBlock(1));
    deliver(&mut s, vote_msg(0, A, 1, 1));
    deliver(&mut s, vote_msg(0, B, 1, 1));
    deliver(&mut s, vote_msg(0, C, 1, 1));
    assert_eq!(s.eras[0].finalized, vec![ProtoBlock(1)]);
    // A competing candidate with full support lands at the next position.
    s.handle_new_proto_block(EraId(0), ProtoBlock(2), ctx(0));
    s.handle_accept_proto_block(EraId(0), ProtoBlock(2));
    deliver(&mut s, vote_msg(0, A, 2, 2));
    deliver(&mut s, vote_msg(0, B, 2, 2));
    deliver(&mut s, vote_msg(0, C, 2, 2));
    assert_eq!(s.eras[0].finalized, vec![ProtoBlock(1), ProtoBlock(2)]);
    // Duplicated old votes change nothing.
    deliver(&mut s, vote_msg(0, A, 1, 1));
    assert_eq!(s.eras[0].finalized, vec![ProtoBlock(1), ProtoBlock(2)]);
}

#[test]
fn evidence_outside_the_bonded_window_is_purged() {
    // With no past eras bonded, creating era 1 drops era 0's instance and
    // its evidence: the window has moved past them.
    let cfg = Config { era_length: 10, timer_interval: 10, bonded_eras: 0 };
    let mut s = EraSupervisor::new(EraId(0), four_validators(), cfg, None);
    deliver(&mut s, vote_msg(0, D, 5, 42));
    deliver(&mut s, vote_msg(0, D, 5, 43));
    assert_eq!(s.evidence.len(), 1);
    let header = BlockHeader { era_id: EraId(0), height: 9, timestamp: Timestamp(500), switch_block: true };
    s.handle_get_validators_response(header, four_validators());
    assert_eq!(s.current_era, EraId(1));
    assert_eq!(s.eras[0].state, EraState::Retired);
    assert!(s.evidence.is_empty());
    let r = deliver(&mut s, ConsensusMessage::EvidenceRequest { era_id: EraId(0), pub_key: D });
    assert!(r.is_empty());
}
