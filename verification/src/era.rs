//! The per-era protocol instance: a weighted-quorum agreement state machine
//! that consumes timers and protocol messages scoped to its era, tracks
//! candidate proto-blocks through external validation, detects equivocation,
//! and finalizes a single linear sequence of proto-blocks.

use crate::bytesrepr::{
    lemma_parse_u64_of_encoding, parse_u64, read_u64, u64_le, write_u64,
};
use crate::messages::{
    has_era_end, has_execution_request, has_timer_request, ConsensusMessage, Effect,
};
use crate::types::{BlockContext, EraId, NodeId, ProtoBlock, PublicKey, Timestamp};
use crate::validators::{
    is_bonded_in, total_weight_of, weights_wf, ValidatorWeights,
};
use vstd::prelude::*;

verus! {

/// One vote of the round protocol: `validator` commits, in `round`, to the
/// proto-block `candidate`. Two votes of one validator for the same round
/// with different candidates are an equivocation.
#[derive(Clone, Copy, PartialEq, Eq, Structural, Debug)]
pub struct Vote {
    /// The validator the vote is signed by.
    pub validator: PublicKey,
    /// The protocol round the vote belongs to.
    pub round: u64,
    /// The proto-block the vote commits to.
    pub candidate: ProtoBlock,
}

/// The wire bytes of a vote: validator, round and candidate, little-endian.
pub open spec fn vote_bytes(v: Vote) -> Seq<u8> {
    u64_le(v.validator.0) + u64_le(v.round) + u64_le(v.candidate.0)
}

/// Reads a vote from a payload; the payload must hold exactly one vote.
pub open spec fn parse_vote(s: Seq<u8>) -> Option<Vote> {
    match parse_u64(s) {
        None => None,
        Some((val, r1)) => match parse_u64(r1) {
            None => None,
            Some((round, r2)) => match parse_u64(r2) {
                None => None,
                Some((cand, r3)) => if r3.len() == 0 {
                    Some(Vote { validator: PublicKey(val), round, candidate: ProtoBlock(cand) })
                } else {
                    None
                },
            },
        },
    }
}

/// Encodes a vote as a protocol payload.
pub fn encode_vote(v: &Vote) -> (r: Vec<u8>)
    ensures
        r@ == vote_bytes(*v),
{
    let mut out: Vec<u8> = Vec::new();
    write_u64(&mut out, v.validator.0);
    write_u64(&mut out, v.round);
    write_u64(&mut out, v.candidate.0);
    proof {
        assert(out@ =~= vote_bytes(*v));
    }
    out
}

/// Decodes a protocol payload; `None` when it is not exactly one vote.
pub fn decode_vote(bytes: &[u8]) -> (r: Option<Vote>)
    ensures
        r == parse_vote(bytes@),
{
    let (val, r1) = match read_u64(bytes) {
        Ok(p) => p,
        Err(_) => {
            return None;
        },
    };
    let (round, r2) = match read_u64(r1) {
        Ok(p) => p,
        Err(_) => {
            return None;
        },
    };
    let (cand, r3) = match read_u64(r2) {
        Ok(p) => p,
        Err(_) => {
            return None;
        },
    };
    if r3.len() != 0 {
        return None;
    }
    Some(Vote { validator: PublicKey(val), round, candidate: ProtoBlock(cand) })
}

/// Decoding the encoding of a vote gives the vote back: a protocol payload
/// round-trips through serialization unchanged.
pub proof fn lemma_vote_roundtrip(v: Vote)
    ensures
        parse_vote(vote_bytes(v)) == Some(v),
{
    let tail = u64_le(v.round) + u64_le(v.candidate.0);
    lemma_parse_u64_of_encoding(v.validator.0, tail);
    assert(vote_bytes(v) =~= u64_le(v.validator.0) + tail);
    lemma_parse_u64_of_encoding(v.round, u64_le(v.candidate.0));
    lemma_parse_u64_of_encoding(v.candidate.0, Seq::<u8>::empty());
    assert(u64_le(v.candidate.0) + Seq::<u8>::empty() =~= u64_le(v.candidate.0));
}

/// A payload that parses as a vote is exactly that vote's encoding: the
/// wire format is canonical, so a replayed payload is byte-identical.
pub proof fn lemma_vote_canonical(s: Seq<u8>)
    requires
        parse_vote(s) is Some,
    ensures
        vote_bytes(parse_vote(s)->Some_0) == s,
{
    let v = parse_vote(s)->Some_0;
    let r1 = s.skip(8);
    let r2 = r1.skip(8);
    crate::bytesrepr::lemma_u64_le_canonical(s.take(8));
    crate::bytesrepr::lemma_u64_le_canonical(r1.take(8));
    crate::bytesrepr::lemma_u64_le_canonical(r2.take(8));
    assert(u64_le(v.validator.0) =~= s.take(8));
    assert(u64_le(v.round) =~= r1.take(8));
    assert(u64_le(v.candidate.0) =~= r2.take(8));
    assert(r2.skip(8).len() == 0);
    assert(s.len() == 24);
    assert(vote_bytes(v) =~= s);
}

/// The lifecycle state of a candidate proto-block. It is created with an
/// outstanding validation request and resolved by the external result.
#[derive(Clone, Copy, PartialEq, Eq, Structural, Debug)]
pub enum CandidateState {
    /// Proposed, with exactly one validation request outstanding.
    ValidationRequested,
    /// Externally validated: eligible for the agreement process.
    Accepted,
    /// Externally rejected: never trusted, its proposer recorded.
    Rejected,
}

/// A proposed proto-block, its proposal context and its validation state.
#[derive(Clone, Copy, PartialEq, Eq, Structural, Debug)]
pub struct Candidate {
    /// The proto-block's identity.
    pub proto_block: ProtoBlock,
    /// The context it was proposed in.
    pub context: BlockContext,
    /// Where it stands in its validation lifecycle.
    pub state: CandidateState,
}

/// The lifecycle state of a protocol instance.
#[derive(Clone, Copy, PartialEq, Eq, Structural, Debug)]
pub enum EraState {
    /// Participating: proposing, voting, finalizing.
    Active,
    /// The last finalized block is computed and the era-end summary emitted;
    /// remaining evidence is still drained.
    Finishing,
    /// No longer accepts events; evidence stays available via the
    /// supervisor's cross-era index while the era is within the bonded
    /// window.
    Retired,
}

/// Some candidate in the list has the given proto-block identity.
pub open spec fn has_candidate(cs: Seq<Candidate>, pb: ProtoBlock) -> bool {
    exists|i: int| 0 <= i < cs.len() && (#[trigger] cs[i]).proto_block == pb
}

/// No proto-block identity occurs twice in the candidate list.
pub open spec fn candidates_unique(cs: Seq<Candidate>) -> bool {
    forall|i: int, j: int|
        0 <= i < j < cs.len() ==> (#[trigger] cs[i]).proto_block != (#[trigger] cs[j]).proto_block
}

/// The position of the candidate with identity `pb`, or a negative number
/// when there is none.
pub open spec fn candidate_index(cs: Seq<Candidate>, pb: ProtoBlock) -> int
    decreases cs.len(),
{
    if cs.len() == 0 {
        -1
    } else if cs[0].proto_block == pb {
        0
    } else {
        let r = candidate_index(cs.drop_first(), pb);
        if r < 0 {
            -1
        } else {
            1 + r
        }
    }
}

/// `candidate_index` finds the first candidate with the given identity, and
/// a negative result means there is none.
pub proof fn lemma_candidate_index(cs: Seq<Candidate>, pb: ProtoBlock)
    ensures
        candidate_index(cs, pb) < 0 ==> !has_candidate(cs, pb),
        candidate_index(cs, pb) >= 0 ==> 0 <= candidate_index(cs, pb) < cs.len() && cs[
            candidate_index(cs, pb)].proto_block == pb,
        forall|j: int| 0 <= j < candidate_index(cs, pb) ==> (#[trigger] cs[j]).proto_block != pb,
    decreases cs.len(),
{
    if cs.len() > 0 && cs[0].proto_block != pb {
        lemma_candidate_index(cs.drop_first(), pb);
        let r = candidate_index(cs.drop_first(), pb);
        assert(forall|i: int|
            0 <= i < cs.drop_first().len() ==> (#[trigger] cs.drop_first()[i]) == cs[i + 1]);
        if r < 0 {
            assert forall|i: int| 0 <= i < cs.len() implies (#[trigger] cs[i]).proto_block
                != pb by {
                if i > 0 {
                    assert(cs.drop_first()[i - 1] == cs[i]);
                }
            }
        } else {
            assert forall|j: int| 0 <= j < candidate_index(cs, pb) implies (
            #[trigger] cs[j]).proto_block != pb by {
                if j > 0 {
                    assert(cs.drop_first()[j - 1] == cs[j]);
                }
            }
        }
    }
}

/// The candidate with identity `pb` exists and has been accepted.
pub open spec fn candidate_accepted(cs: Seq<Candidate>, pb: ProtoBlock) -> bool {
    exists|i: int|
        0 <= i < cs.len() && (#[trigger] cs[i]).proto_block == pb && cs[i].state
            is Accepted
}

/// The first accepted candidate that is not finalized yet: what the node
/// itself votes for when a timer fires.
pub open spec fn first_votable(cs: Seq<Candidate>, fin: Seq<ProtoBlock>) -> Option<ProtoBlock>
    decreases cs.len(),
{
    if cs.len() == 0 {
        None
    } else if cs[0].state is Accepted && !fin.contains(cs[0].proto_block) {
        Some(cs[0].proto_block)
    } else {
        first_votable(cs.drop_first(), fin)
    }
}

/// Some already recorded vote conflicts with `v`: same validator, same
/// round, different candidate.
pub open spec fn conflicting(votes: Seq<Vote>, v: Vote) -> bool {
    exists|i: int|
        0 <= i < votes.len() && (#[trigger] votes[i]).validator == v.validator && votes[i].round
            == v.round && votes[i].candidate != v.candidate
}

/// The recorded votes contain an equivocating pair signed by `k`.
pub open spec fn equivocated(votes: Seq<Vote>, k: PublicKey) -> bool {
    exists|i: int, j: int|
        0 <= i < votes.len() && 0 <= j < votes.len() && (#[trigger] votes[i]).validator == k && (
        #[trigger] votes[j]).validator == k && votes[i].round == votes[j].round && votes[i].candidate
            != votes[j].candidate
}

/// The weight of the validators that are not known to be faulty and have a
/// recorded vote for candidate `c` in `round`.
pub open spec fn support_of(
    entries: Seq<(PublicKey, u64)>,
    votes: Seq<Vote>,
    faulty: Seq<PublicKey>,
    round: u64,
    c: ProtoBlock,
) -> int
    decreases entries.len(),
{
    if entries.len() == 0 {
        0
    } else {
        (if !faulty.contains(entries[0].0) && votes.contains(
            Vote { validator: entries[0].0, round: round, candidate: c },
        ) {
            entries[0].1 as int
        } else {
            0
        }) + support_of(entries.drop_first(), votes, faulty, round, c)
    }
}

/// The weight of the validators that are not known to be faulty: the total
/// that quorum fractions are taken of once equivocators are discounted.
pub open spec fn honest_weight_of(entries: Seq<(PublicKey, u64)>, faulty: Seq<PublicKey>) -> int
    decreases entries.len(),
{
    if entries.len() == 0 {
        0
    } else {
        (if !faulty.contains(entries[0].0) {
            entries[0].1 as int
        } else {
            0
        }) + honest_weight_of(entries.drop_first(), faulty)
    }
}

/// More than two thirds of the non-faulty weight has a recorded vote for
/// candidate `c` in `round`: the finality rule.
pub open spec fn quorum(
    entries: Seq<(PublicKey, u64)>,
    votes: Seq<Vote>,
    faulty: Seq<PublicKey>,
    round: u64,
    c: ProtoBlock,
) -> bool {
    3 * support_of(entries, votes, faulty, round, c) > 2 * honest_weight_of(entries, faulty)
}

/// Walking one entry moves its contribution from the tail to the head of
/// the support sum.
pub proof fn lemma_support_step(
    entries: Seq<(PublicKey, u64)>,
    votes: Seq<Vote>,
    faulty: Seq<PublicKey>,
    round: u64,
    c: ProtoBlock,
    i: int,
)
    requires
        0 <= i < entries.len(),
    ensures
        support_of(entries.skip(i), votes, faulty, round, c) == (if !faulty.contains(entries[i].0)
            && votes.contains(Vote { validator: entries[i].0, round: round, candidate: c }) {
            entries[i].1 as int
        } else {
            0
        }) + support_of(entries.skip(i + 1), votes, faulty, round, c),
{
    assert(entries.skip(i)[0] == entries[i]);
    assert(entries.skip(i).drop_first() =~= entries.skip(i + 1));
}

/// Walking one entry moves its contribution from the tail to the head of
/// the honest-weight sum.
pub proof fn lemma_honest_step(entries: Seq<(PublicKey, u64)>, faulty: Seq<PublicKey>, i: int)
    requires
        0 <= i < entries.len(),
    ensures
        honest_weight_of(entries.skip(i), faulty) == (if !faulty.contains(entries[i].0) {
            entries[i].1 as int
        } else {
            0
        }) + honest_weight_of(entries.skip(i + 1), faulty),
{
    assert(entries.skip(i)[0] == entries[i]);
    assert(entries.skip(i).drop_first() =~= entries.skip(i + 1));
}

/// Support and honest weight lie between zero and the total weight.
pub proof fn lemma_weight_sums_bounded(
    entries: Seq<(PublicKey, u64)>,
    votes: Seq<Vote>,
    faulty: Seq<PublicKey>,
    round: u64,
    c: ProtoBlock,
)
    ensures
        0 <= support_of(entries, votes, faulty, round, c) <= honest_weight_of(entries, faulty),
        honest_weight_of(entries, faulty) <= total_weight_of(entries),
    decreases entries.len(),
{
    if entries.len() > 0 {
        lemma_weight_sums_bounded(entries.drop_first(), votes, faulty, round, c);
    }
}

/// The full abstract state of one protocol instance.
pub ghost struct EraModel {
    /// The era this instance decides for.
    pub era_id: EraId,
    /// Where the instance stands in its lifecycle.
    pub state: EraState,
    /// How many blocks this era finalizes before it ends.
    pub era_length: u64,
    /// The protocol round the instance itself currently votes in.
    pub current_round: u64,
    /// The key this node votes with, when it is a validator of the era.
    pub our_key: Option<PublicKey>,
    /// The era's validator weights.
    pub weights: Seq<(PublicKey, u64)>,
    /// The candidate proto-blocks, each at most once.
    pub candidates: Seq<Candidate>,
    /// All distinct votes received and accepted so far.
    pub votes: Seq<Vote>,
    /// The validators caught equivocating, in order of detection.
    pub faulty: Seq<PublicKey>,
    /// The finalized proto-blocks, in their permanent order.
    pub finalized: Seq<ProtoBlock>,
    /// Peers that sent proto-blocks which turned out invalid.
    pub suspects: Seq<NodeId>,
}

impl EraModel {
    /// A consistent instance state: valid weights, a positive era length,
    /// unique candidates and votes, every vote from a bonded validator, and
    /// the faulty list holding exactly the validators with an equivocating
    /// pair among the votes.
    pub open spec fn wf(self) -> bool {
        &&& weights_wf(self.weights)
        &&& self.era_length > 0
        &&& self.finalized.len() <= self.era_length
        &&& (self.state is Active ==> self.finalized.len() < self.era_length)
        &&& candidates_unique(self.candidates)
        &&& self.votes.no_duplicates()
        &&& self.faulty.no_duplicates()
        &&& (forall|i: int|
            0 <= i < self.votes.len() ==> is_bonded_in(
                self.weights,
                (#[trigger] self.votes[i]).validator,
            ))
        &&& (forall|k: PublicKey| #[trigger] self.faulty.contains(k) ==> equivocated(self.votes, k))
        &&& (forall|k: PublicKey| #[trigger]
            equivocated(self.votes, k) ==> self.faulty.contains(k))
        &&& self.finalized.no_duplicates()
    }

    /// Records `v` and, when it conflicts with an earlier vote of the same
    /// validator, marks that validator faulty. No finality check.
    pub open spec fn add_vote(self, v: Vote) -> EraModel {
        let faulty1 = if conflicting(self.votes, v) && !self.faulty.contains(v.validator) {
            self.faulty.push(v.validator)
        } else {
            self.faulty
        };
        EraModel { votes: self.votes.push(v), faulty: faulty1, ..self }
    }

    /// Appends `c` to the finalized sequence when it is accepted, not yet
    /// finalized, and has quorum support at `round`; reaching the era's
    /// designated length ends the era.
    pub open spec fn try_finalize(self, round: u64, c: ProtoBlock) -> EraModel {
        if candidate_accepted(self.candidates, c) && !self.finalized.contains(c) && quorum(
            self.weights,
            self.votes,
            self.faulty,
            round,
            c,
        ) {
            let fin = self.finalized.push(c);
            EraModel {
                finalized: fin,
                state: if fin.len() == self.era_length {
                    EraState::Finishing
                } else {
                    self.state
                },
                ..self
            }
        } else {
            self
        }
    }

    /// The transition for one received vote: drop it when the era is
    /// retired, the sender is not bonded, or the vote is a duplicate;
    /// otherwise record it, detect equivocation, and, while the era is
    /// active, check finality for the vote's round and candidate.
    pub open spec fn record_vote(self, v: Vote) -> EraModel {
        if self.state is Retired || !is_bonded_in(self.weights, v.validator) || self.votes.contains(
            v,
        ) {
            self
        } else {
            let m1 = self.add_vote(v);
            if self.state is Active {
                m1.try_finalize(v.round, v.candidate)
            } else {
                m1
            }
        }
    }

    /// The transition for one protocol payload: a payload that is not
    /// exactly one vote is rejected without any state change.
    pub open spec fn handle_payload(self, bytes: Seq<u8>) -> EraModel {
        match parse_vote(bytes) {
            None => self,
            Some(v) => self.record_vote(v),
        }
    }

    /// The transition for a newly proposed proto-block: register it with an
    /// outstanding validation request, unless it is already tracked.
    pub open spec fn propose(self, pb: ProtoBlock, ctx: BlockContext) -> EraModel {
        if !(self.state is Active) || has_candidate(self.candidates, pb) {
            self
        } else {
            EraModel {
                candidates: self.candidates.push(
                    Candidate {
                        proto_block: pb,
                        context: ctx,
                        state: CandidateState::ValidationRequested,
                    },
                ),
                ..self
            }
        }
    }

    /// The transition for a positive validation result: the candidate
    /// becomes eligible, and finality is checked against the votes already
    /// recorded for it.
    pub open spec fn accept(self, pb: ProtoBlock) -> EraModel {
        if !(self.state is Active) {
            self
        } else {
            let i = candidate_index(self.candidates, pb);
            if i < 0 || !(self.candidates[i].state is ValidationRequested) {
                self
            } else {
                let m1 = EraModel {
                    candidates: self.candidates.update(
                        i,
                        Candidate { state: CandidateState::Accepted, ..self.candidates[i] },
                    ),
                    ..self
                };
                if !m1.finalized.contains(pb) && (exists|j: int|
                    0 <= j < m1.votes.len() && (#[trigger] m1.votes[j]).candidate == pb && quorum(
                        m1.weights,
                        m1.votes,
                        m1.faulty,
                        m1.votes[j].round,
                        pb,
                    )) {
                    let fin = m1.finalized.push(pb);
                    EraModel {
                        finalized: fin,
                        state: if fin.len() == m1.era_length {
                            EraState::Finishing
                        } else {
                            m1.state
                        },
                        ..m1
                    }
                } else {
                    m1
                }
            }
        }
    }

    /// The transition for a negative validation result: the candidate is
    /// rejected and its sender recorded as a suspect.
    pub open spec fn reject(self, sender: NodeId, pb: ProtoBlock) -> EraModel {
        if !(self.state is Active) {
            self
        } else {
            let i = candidate_index(self.candidates, pb);
            if i < 0 || !(self.candidates[i].state is ValidationRequested) {
                self
            } else {
                EraModel {
                    candidates: self.candidates.update(
                        i,
                        Candidate { state: CandidateState::Rejected, ..self.candidates[i] },
                    ),
                    suspects: self.suspects.push(sender),
                    ..self
                }
            }
        }
    }

    /// The transition for a timer: while active, advance the round and, when
    /// this node is a bonded validator and an accepted candidate is waiting,
    /// cast the node's own vote for it.
    pub open spec fn tick(self) -> EraModel {
        if !(self.state is Active) {
            self
        } else {
            let r2 = if self.current_round < u64::MAX {
                (self.current_round + 1) as u64
            } else {
                self.current_round
            };
            let m1 = EraModel { current_round: r2, ..self };
            match self.our_key {
                Some(k) => if is_bonded_in(self.weights, k) {
                    match first_votable(m1.candidates, m1.finalized) {
                        Some(c) => m1.record_vote(Vote { validator: k, round: r2, candidate: c }),
                        None => m1,
                    }
                } else {
                    m1
                },
                None => m1,
            }
        }
    }
}


/// Pushing a fresh element keeps a sequence duplicate-free.
proof fn lemma_push_no_duplicates<T>(s: Seq<T>, x: T)
    requires
        s.no_duplicates(),
        !s.contains(x),
    ensures
        s.push(x).no_duplicates(),
{
    let s1 = s.push(x);
    assert forall|i: int, j: int|
        0 <= i < s1.len() && 0 <= j < s1.len() && i != j implies s1[i] != s1[j] by {
        if i < s.len() && j < s.len() {
            assert(s1[i] == s[i] && s1[j] == s[j]);
        } else if j == s.len() {
            assert(s1[i] == s[i] && s1[j] == x);
            if s[i] == x {
                assert(s.contains(x));
            }
        } else {
            assert(s1[j] == s[j] && s1[i] == x);
            if s[j] == x {
                assert(s.contains(x));
            }
        }
    }
}

/// A sequence is a prefix of itself extended by one element.
proof fn lemma_prefix_push<T>(s: Seq<T>, x: T)
    ensures
        s.is_prefix_of(s.push(x)),
{
    assert(s =~= s.push(x).take(s.len() as int));
}

/// Recording a vote preserves the instance's consistency.
pub proof fn lemma_add_vote_wf(m: EraModel, v: Vote)
    requires
        m.wf(),
        is_bonded_in(m.weights, v.validator),
        !m.votes.contains(v),
    ensures
        m.add_vote(v).wf(),
        m.add_vote(v).votes == m.votes.push(v),
{
    let m1 = m.add_vote(v);
    let votes1 = m.votes.push(v);
    let nv = m.votes.len() as int;
    lemma_push_no_duplicates(m.votes, v);
    assert forall|i: int|
        0 <= i < votes1.len() implies is_bonded_in(
        m.weights,
        (#[trigger] votes1[i]).validator,
    ) by {
        if i < nv {
            assert(votes1[i] == m.votes[i]);
        } else {
            assert(votes1[i] == v);
        }
    }
    if conflicting(m.votes, v) && !m.faulty.contains(v.validator) {
        lemma_push_no_duplicates(m.faulty, v.validator);
    }
    // Every listed validator has an equivocating pair among the new votes.
    assert forall|k: PublicKey| #[trigger]
        m1.faulty.contains(k) implies equivocated(m1.votes, k) by {
        if m.faulty.contains(k) {
            let (i, j) = choose|i: int, j: int|
                0 <= i < m.votes.len() && 0 <= j < m.votes.len() && (#[trigger] m.votes[i]).validator
                    == k && (#[trigger] m.votes[j]).validator == k && m.votes[i].round
                    == m.votes[j].round && m.votes[i].candidate != m.votes[j].candidate;
            assert(votes1[i] == m.votes[i] && votes1[j] == m.votes[j]);
            assert(equivocated(votes1, k));
        } else {
            assert(conflicting(m.votes, v) && k == v.validator);
            let i = choose|i: int|
                0 <= i < m.votes.len() && (#[trigger] m.votes[i]).validator == v.validator
                    && m.votes[i].round == v.round && m.votes[i].candidate != v.candidate;
            assert(votes1[i] == m.votes[i] && votes1[nv] == v);
            assert(equivocated(votes1, k));
        }
    }
    // Every equivocating pair among the new votes is listed.
    assert forall|k: PublicKey| #[trigger]
        equivocated(m1.votes, k) implies m1.faulty.contains(k) by {
        let (i, j) = choose|i: int, j: int|
            0 <= i < votes1.len() && 0 <= j < votes1.len() && (#[trigger] votes1[i]).validator == k
                && (#[trigger] votes1[j]).validator == k && votes1[i].round == votes1[j].round
                && votes1[i].candidate != votes1[j].candidate;
        if i < nv && j < nv {
            assert(votes1[i] == m.votes[i] && votes1[j] == m.votes[j]);
            assert(equivocated(m.votes, k));
            assert(m.faulty.contains(k));
            lemma_contains_after_push_keeps(m.faulty, k);
        } else if i == nv && j == nv {
            assert(votes1[i] == v && votes1[j] == v);
        } else {
            let w = if i < nv {
                votes1[i]
            } else {
                votes1[j]
            };
            let wi = if i < nv {
                i
            } else {
                j
            };
            assert(votes1[wi] == m.votes[wi]);
            assert(m.votes[wi] == w);
            assert(w.validator == v.validator && w.round == v.round && w.candidate != v.candidate);
            assert(conflicting(m.votes, v));
            assert(k == v.validator);
            if m.faulty.contains(k) {
                lemma_contains_after_push_keeps_general(m1.faulty, m.faulty, k);
            } else {
                assert(m1.faulty == m.faulty.push(v.validator));
                assert(m1.faulty[m.faulty.len() as int] == v.validator);
                assert(m1.faulty.contains(k));
            }
        }
    }
}

/// A pushed sequence still contains every earlier element.
proof fn lemma_contains_after_push_keeps<T>(s: Seq<T>, x: T)
    requires
        s.contains(x),
    ensures
        forall|y: T| s.push(y).contains(x),
{
    let i = choose|i: int| 0 <= i < s.len() && s[i] == x;
    assert forall|y: T| s.push(y).contains(x) by {
        assert(s.push(y)[i] == x);
    }
}

/// Containment carries to any sequence that equals the original or its
/// extension by one element.
proof fn lemma_contains_after_push_keeps_general<T>(s1: Seq<T>, s: Seq<T>, x: T)
    requires
        s.contains(x),
        s1 == s || exists|y: T| s1 == s.push(y),
    ensures
        s1.contains(x),
{
    let i = choose|i: int| 0 <= i < s.len() && s[i] == x;
    assert(s1[i] == x);
}

/// The finality check preserves the instance's consistency.
pub proof fn lemma_try_finalize_wf(m: EraModel, round: u64, c: ProtoBlock)
    requires
        m.wf(),
        m.state is Active,
    ensures
        m.try_finalize(round, c).wf(),
        m.finalized.is_prefix_of(m.try_finalize(round, c).finalized),
        !(m.try_finalize(round, c).state is Retired),
{
    let m1 = m.try_finalize(round, c);
    if candidate_accepted(m.candidates, c) && !m.finalized.contains(c) && quorum(
        m.weights,
        m.votes,
        m.faulty,
        round,
        c,
    ) {
        lemma_push_no_duplicates(m.finalized, c);
        lemma_prefix_push(m.finalized, c);
    } else {
        assert(m.finalized =~= m.finalized.take(m.finalized.len() as int));
    }
}

/// The vote transition preserves the instance's consistency, never revives
/// a retired era, and only ever appends to the finalized sequence.
pub proof fn lemma_record_vote_wf(m: EraModel, v: Vote)
    requires
        m.wf(),
    ensures
        m.record_vote(v).wf(),
        m.finalized.is_prefix_of(m.record_vote(v).finalized),
        m.record_vote(v).state is Retired <==> m.state is Retired,
        m.record_vote(v).finalized == m.finalized || m.record_vote(v).finalized == m.finalized.push(
            v.candidate,
        ),
{
    assert(m.finalized =~= m.finalized.take(m.finalized.len() as int));
    if !(m.state is Retired) && is_bonded_in(m.weights, v.validator) && !m.votes.contains(v) {
        lemma_add_vote_wf(m, v);
        let m1 = m.add_vote(v);
        if m.state is Active {
            lemma_try_finalize_wf(m1, v.round, v.candidate);
        }
    }
}

/// The payload transition preserves the instance's consistency and only
/// ever appends to the finalized sequence.
pub proof fn lemma_handle_payload_wf(m: EraModel, bytes: Seq<u8>)
    requires
        m.wf(),
    ensures
        m.handle_payload(bytes).wf(),
        m.finalized.is_prefix_of(m.handle_payload(bytes).finalized),
        m.handle_payload(bytes).state is Retired <==> m.state is Retired,
{
    assert(m.finalized =~= m.finalized.take(m.finalized.len() as int));
    match parse_vote(bytes) {
        None => {},
        Some(v) => {
            lemma_record_vote_wf(m, v);
        },
    }
}

/// The proposal transition preserves the instance's consistency and leaves
/// the finalized sequence unchanged.
pub proof fn lemma_propose_wf(m: EraModel, pb: ProtoBlock, ctx: BlockContext)
    requires
        m.wf(),
    ensures
        m.propose(pb, ctx).wf(),
        m.propose(pb, ctx).finalized == m.finalized,
{
    if m.state is Active && !has_candidate(m.candidates, pb) {
        let cs1 = m.candidates.push(
            Candidate { proto_block: pb, context: ctx, state: CandidateState::ValidationRequested },
        );
        assert forall|i: int, j: int|
            0 <= i < j < cs1.len() implies (#[trigger] cs1[i]).proto_block != (
        #[trigger] cs1[j]).proto_block by {
            if j < m.candidates.len() {
                assert(cs1[i] == m.candidates[i] && cs1[j] == m.candidates[j]);
            } else {
                assert(cs1[i] == m.candidates[i]);
                if m.candidates[i].proto_block == pb {
                    assert(has_candidate(m.candidates, pb));
                }
            }
        }
    }
}

/// The acceptance transition preserves the instance's consistency and only
/// ever appends to the finalized sequence.
pub proof fn lemma_accept_wf(m: EraModel, pb: ProtoBlock)
    requires
        m.wf(),
    ensures
        m.accept(pb).wf(),
        m.finalized.is_prefix_of(m.accept(pb).finalized),
{
    assert(m.finalized =~= m.finalized.take(m.finalized.len() as int));
    if m.state is Active {
        let i = candidate_index(m.candidates, pb);
        lemma_candidate_index(m.candidates, pb);
        if i >= 0 && m.candidates[i].state is ValidationRequested {
            let cs1 = m.candidates.update(
                i,
                Candidate { state: CandidateState::Accepted, ..m.candidates[i] },
            );
            assert forall|a: int, b: int|
                0 <= a < b < cs1.len() implies (#[trigger] cs1[a]).proto_block != (
            #[trigger] cs1[b]).proto_block by {
                assert(m.candidates[a].proto_block != m.candidates[b].proto_block);
            }
            let m1 = EraModel { candidates: cs1, ..m };
            if !m1.finalized.contains(pb) && (exists|j: int|
                0 <= j < m1.votes.len() && (#[trigger] m1.votes[j]).candidate == pb && quorum(
                    m1.weights,
                    m1.votes,
                    m1.faulty,
                    m1.votes[j].round,
                    pb,
                )) {
                lemma_push_no_duplicates(m.finalized, pb);
                lemma_prefix_push(m.finalized, pb);
            }
        }
    }
}

/// The rejection transition preserves the instance's consistency and leaves
/// the finalized sequence unchanged.
pub proof fn lemma_reject_wf(m: EraModel, sender: NodeId, pb: ProtoBlock)
    requires
        m.wf(),
    ensures
        m.reject(sender, pb).wf(),
        m.reject(sender, pb).finalized == m.finalized,
{
    if m.state is Active {
        let i = candidate_index(m.candidates, pb);
        lemma_candidate_index(m.candidates, pb);
        if i >= 0 && m.candidates[i].state is ValidationRequested {
            let cs1 = m.candidates.update(
                i,
                Candidate { state: CandidateState::Rejected, ..m.candidates[i] },
            );
            assert forall|a: int, b: int|
                0 <= a < b < cs1.len() implies (#[trigger] cs1[a]).proto_block != (
            #[trigger] cs1[b]).proto_block by {
                assert(m.candidates[a].proto_block != m.candidates[b].proto_block);
            }
        }
    }
}

/// The timer transition preserves the instance's consistency and only ever
/// appends to the finalized sequence.
pub proof fn lemma_tick_wf(m: EraModel)
    requires
        m.wf(),
    ensures
        m.tick().wf(),
        m.finalized.is_prefix_of(m.tick().finalized),
        m.tick().state is Retired <==> m.state is Retired,
{
    assert(m.finalized =~= m.finalized.take(m.finalized.len() as int));
    if m.state is Active {
        let r2 = if m.current_round < u64::MAX {
            (m.current_round + 1) as u64
        } else {
            m.current_round
        };
        let m1 = EraModel { current_round: r2, ..m };
        assert(m1.wf());
        match m.our_key {
            Some(k) => {
                if is_bonded_in(m.weights, k) {
                    match first_votable(m1.candidates, m1.finalized) {
                        Some(c) => {
                            lemma_record_vote_wf(
                                m1,
                                Vote { validator: k, round: r2, candidate: c },
                            );
                        },
                        None => {},
                    }
                }
            },
            None => {},
        }
    }
}


/// Delivering the same protocol payload twice leaves the instance in the
/// same state as delivering it once: duplicates are suppressed.
pub proof fn lemma_payload_idempotent(m: EraModel, bytes: Seq<u8>)
    ensures
        m.handle_payload(bytes).handle_payload(bytes) == m.handle_payload(bytes),
{
    match parse_vote(bytes) {
        None => {},
        Some(v) => {
            let m1 = m.record_vote(v);
            if !(m.state is Retired) && is_bonded_in(m.weights, v.validator)
                && !m.votes.contains(v) {
                assert(m1.votes == m.votes.push(v));
                assert(m1.votes[m.votes.len() as int] == v);
                assert(m1.votes.contains(v));
            }
        },
    }
}

/// If a validator signs two conflicting votes for the same round, then after
/// both are delivered, in either order, the instance lists that validator as
/// faulty.
pub proof fn lemma_equivocation_detected(m: EraModel, v1: Vote, v2: Vote)
    requires
        m.wf(),
        !(m.state is Retired),
        is_bonded_in(m.weights, v1.validator),
        v1.validator == v2.validator,
        v1.round == v2.round,
        v1.candidate != v2.candidate,
    ensures
        m.record_vote(v1).record_vote(v2).faulty.contains(v1.validator),
{
    let k = v1.validator;
    lemma_record_vote_wf(m, v1);
    let m1 = m.record_vote(v1);
    lemma_record_vote_wf(m1, v2);
    let m2 = m1.record_vote(v2);
    // After the first delivery, v1 is among the recorded votes.
    if m.votes.contains(v1) {
        assert(m1.votes == m.votes);
    } else {
        assert(m1.votes == m.votes.push(v1));
        assert(m1.votes[m.votes.len() as int] == v1);
    }
    assert(m1.votes.contains(v1));
    let i1 = choose|i: int| 0 <= i < m1.votes.len() && m1.votes[i] == v1;
    if m1.votes.contains(v2) {
        // Both votes already recorded: the pair is an equivocation, so the
        // consistency invariant lists the validator, and the second delivery
        // changes nothing.
        let i2 = choose|i: int| 0 <= i < m1.votes.len() && m1.votes[i] == v2;
        assert(equivocated(m1.votes, k));
        assert(m1.faulty.contains(k));
        assert(m2 == m1);
    } else {
        // The second delivery records v2 and sees the conflict with v1.
        assert(conflicting(m1.votes, v2));
        let ma = m1.add_vote(v2);
        if m1.faulty.contains(k) {
            lemma_contains_after_push_keeps_general(ma.faulty, m1.faulty, k);
        } else {
            assert(ma.faulty == m1.faulty.push(k));
            assert(ma.faulty[m1.faulty.len() as int] == k);
        }
        assert(ma.faulty.contains(k));
        if m1.state is Active {
            assert(m2 == ma.try_finalize(v2.round, v2.candidate));
            assert(m2.faulty == ma.faulty);
        } else {
            assert(m2 == ma);
        }
    }
}

/// When an accepted, not yet finalized candidate gathers quorum support,
/// the vote that completes the quorum finalizes it: the era makes progress.
pub proof fn lemma_quorum_finalizes(m: EraModel, v: Vote)
    requires
        m.wf(),
        m.state is Active,
        is_bonded_in(m.weights, v.validator),
        !m.votes.contains(v),
        candidate_accepted(m.candidates, v.candidate),
        !m.finalized.contains(v.candidate),
        quorum(
            m.weights,
            m.add_vote(v).votes,
            m.add_vote(v).faulty,
            v.round,
            v.candidate,
        ),
    ensures
        m.record_vote(v).finalized == m.finalized.push(v.candidate),
{
    let m1 = m.add_vote(v);
    assert(m1.candidates == m.candidates);
    assert(m1.finalized == m.finalized);
}


/// What handling one event in an era produced: the effects to perform, and
/// the equivocating vote pair when a new fault was detected.
pub struct EraOutcome {
    /// The side effects to hand to the translation layer.
    pub effects: Vec<Effect>,
    /// The conflicting pair behind a newly detected fault: the earlier
    /// recorded vote and the newly delivered one.
    pub evidence: Option<(Vote, Vote)>,
}

/// Whether `v` occurs among the recorded votes.
fn contains_vote(votes: &Vec<Vote>, v: Vote) -> (r: bool)
    ensures
        r == votes@.contains(v),
{
    let n = votes.len();
    let mut i: usize = 0;
    while i < n
        invariant
            n == votes@.len(),
            i <= n,
            forall|j: int| 0 <= j < i ==> votes@[j] != v,
        decreases n - i,
    {
        if votes[i] == v {
            return true;
        }
        i = i + 1;
    }
    false
}

/// Whether `b` occurs among the finalized proto-blocks.
fn contains_block(blocks: &Vec<ProtoBlock>, b: ProtoBlock) -> (r: bool)
    ensures
        r == blocks@.contains(b),
{
    let n = blocks.len();
    let mut i: usize = 0;
    while i < n
        invariant
            n == blocks@.len(),
            i <= n,
            forall|j: int| 0 <= j < i ==> blocks@[j] != b,
        decreases n - i,
    {
        if blocks[i] == b {
            return true;
        }
        i = i + 1;
    }
    false
}

/// The first recorded vote that conflicts with `v`, when there is one.
fn find_conflicting(votes: &Vec<Vote>, v: Vote) -> (r: Option<Vote>)
    ensures
        r is Some <==> conflicting(votes@, v),
        (r matches Some(w) ==> votes@.contains(w) && w.validator == v.validator && w.round
            == v.round && w.candidate != v.candidate),
{
    let n = votes.len();
    let mut i: usize = 0;
    while i < n
        invariant
            n == votes@.len(),
            i <= n,
            forall|j: int|
                0 <= j < i ==> !((#[trigger] votes@[j]).validator == v.validator && votes@[j].round
                    == v.round && votes@[j].candidate != v.candidate),
        decreases n - i,
    {
        let w = votes[i];
        if w.validator == v.validator && w.round == v.round && w.candidate != v.candidate {
            proof {
                assert(votes@[i as int] == w);
            }
            return Some(w);
        }
        i = i + 1;
    }
    None
}

/// A copy of a list of validator keys.
fn clone_keys(v: &Vec<PublicKey>) -> (r: Vec<PublicKey>)
    ensures
        r@ == v@,
{
    let n = v.len();
    let mut r: Vec<PublicKey> = Vec::new();
    let mut i: usize = 0;
    while i < n
        invariant
            n == v@.len(),
            i <= n,
            r@ == v@.take(i as int),
        decreases n - i,
    {
        r.push(v[i]);
        proof {
            assert(v@.take(i as int + 1) =~= v@.take(i as int).push(v@[i as int]));
        }
        i = i + 1;
    }
    proof {
        assert(v@.take(n as int) =~= v@);
    }
    r
}

/// Scanning one candidate unfolds the first-votable search by one step.
proof fn lemma_first_votable_step(cs: Seq<Candidate>, fin: Seq<ProtoBlock>, i: int)
    requires
        0 <= i < cs.len(),
    ensures
        first_votable(cs.skip(i), fin) == (if cs[i].state is Accepted && !fin.contains(
            cs[i].proto_block,
        ) {
            Some(cs[i].proto_block)
        } else {
            first_votable(cs.skip(i + 1), fin)
        }),
{
    assert(cs.skip(i)[0] == cs[i]);
    assert(cs.skip(i).drop_first() =~= cs.skip(i + 1));
}

/// One per-era protocol instance: its identity, lifecycle state, validator
/// weights, candidate proto-blocks, recorded votes, detected faults and
/// finalized sequence.
pub struct Era {
    /// The era this instance decides for.
    pub era_id: EraId,
    /// Where the instance stands in its lifecycle.
    pub state: EraState,
    /// How many blocks this era finalizes before it ends.
    pub era_length: u64,
    /// The protocol round the instance itself currently votes in.
    pub current_round: u64,
    /// The key this node votes with, when it is a validator of the era.
    pub our_key: Option<PublicKey>,
    /// The era's validator weights.
    pub weights: ValidatorWeights,
    /// The candidate proto-blocks, each at most once.
    pub candidates: Vec<Candidate>,
    /// All distinct votes received and accepted so far.
    pub votes: Vec<Vote>,
    /// The validators caught equivocating, in order of detection.
    pub faulty: Vec<PublicKey>,
    /// The finalized proto-blocks, in their permanent order.
    pub finalized: Vec<ProtoBlock>,
    /// Peers that sent proto-blocks which turned out invalid.
    pub suspects: Vec<NodeId>,
}

impl View for Era {
    type V = EraModel;

    open spec fn view(&self) -> EraModel {
        EraModel {
            era_id: self.era_id,
            state: self.state,
            era_length: self.era_length,
            current_round: self.current_round,
            our_key: self.our_key,
            weights: self.weights@,
            candidates: self.candidates@,
            votes: self.votes@,
            faulty: self.faulty@,
            finalized: self.finalized@,
            suspects: self.suspects@,
        }
    }
}

impl Era {
    /// A consistent instance, with the weight table's cached total intact.
    pub open spec fn wf(self) -> bool {
        self.weights.wf() && self@.wf()
    }

    /// A fresh, active instance for `era_id`, seeded with the era's
    /// validator weights; it has seen no candidates, votes or faults.
    pub fn new(
        era_id: EraId,
        weights: ValidatorWeights,
        era_length: u64,
        our_key: Option<PublicKey>,
    ) -> (r: Era)
        requires
            weights.wf(),
            era_length > 0,
        ensures
            r.wf(),
            r@ == (EraModel {
                era_id,
                state: EraState::Active,
                era_length,
                current_round: 0,
                our_key,
                weights: weights@,
                candidates: Seq::<Candidate>::empty(),
                votes: Seq::<Vote>::empty(),
                faulty: Seq::<PublicKey>::empty(),
                finalized: Seq::<ProtoBlock>::empty(),
                suspects: Seq::<NodeId>::empty(),
            }),
    {
        let r = Era {
            era_id,
            state: EraState::Active,
            era_length,
            current_round: 0,
            our_key,
            weights,
            candidates: Vec::new(),
            votes: Vec::new(),
            faulty: Vec::new(),
            finalized: Vec::new(),
            suspects: Vec::new(),
        };
        proof {
            assert(r@.votes =~= Seq::<Vote>::empty());
            assert(r@.candidates =~= Seq::<Candidate>::empty());
            assert(r@.faulty =~= Seq::<PublicKey>::empty());
            assert(r@.finalized =~= Seq::<ProtoBlock>::empty());
            assert(r@.suspects =~= Seq::<NodeId>::empty());
        }
        r
    }

    /// The position of the candidate with identity `pb`, when it is tracked.
    fn candidate_pos(&self, pb: ProtoBlock) -> (r: Option<usize>)
        ensures
            (r matches Some(i) ==> i == candidate_index(self.candidates@, pb) && i
                < self.candidates@.len()),
            r is None ==> candidate_index(self.candidates@, pb) < 0,
    {
        proof {
            lemma_candidate_index(self.candidates@, pb);
        }
        let n = self.candidates.len();
        let mut i: usize = 0;
        while i < n
            invariant
                n == self.candidates@.len(),
                i <= n,
                forall|j: int| 0 <= j < i ==> (#[trigger] self.candidates@[j]).proto_block != pb,
            decreases n - i,
        {
            if self.candidates[i].proto_block == pb {
                proof {
                    lemma_candidate_index(self.candidates@, pb);
                    assert(has_candidate(self.candidates@, pb));
                }
                return Some(i);
            }
            i = i + 1;
        }
        None
    }

    /// The first accepted candidate that is not finalized yet.
    fn next_votable(&self) -> (r: Option<ProtoBlock>)
        ensures
            r == first_votable(self.candidates@, self.finalized@),
    {
        let cs = Ghost(self.candidates@);
        let fin = Ghost(self.finalized@);
        let n = self.candidates.len();
        let mut i: usize = 0;
        proof {
            assert(cs@.skip(0) =~= cs@);
        }
        while i < n
            invariant
                cs@ == self.candidates@,
                fin@ == self.finalized@,
                n == cs@.len(),
                i <= n,
                first_votable(cs@, fin@) == first_votable(cs@.skip(i as int), fin@),
            decreases n - i,
        {
            proof {
                lemma_first_votable_step(cs@, fin@, i as int);
            }
            let c = self.candidates[i];
            if c.state == CandidateState::Accepted && !contains_block(&self.finalized, c.proto_block)
            {
                return Some(c.proto_block);
            }
            i = i + 1;
        }
        proof {
            assert(cs@.skip(n as int) =~= Seq::<Candidate>::empty());
        }
        None
    }

    /// The weight of the non-faulty validators with a recorded vote for
    /// candidate `c` in `round`.
    fn support(&self, round: u64, c: ProtoBlock) -> (r: u128)
        requires
            self.wf(),
        ensures
            r == support_of(self.weights@, self.votes@, self.faulty@, round, c),
    {
        let ghost entries = self.weights@;
        let ghost votes = self.votes@;
        let ghost faulty = self.faulty@;
        let n = self.weights.entries.len();
        let mut acc: u128 = 0;
        let mut i: usize = 0;
        proof {
            assert(entries.skip(0) =~= entries);
            lemma_weight_sums_bounded(entries, votes, faulty, round, c);
        }
        while i < n
            invariant
                entries == self.weights@,
                votes == self.votes@,
                faulty == self.faulty@,
                self.wf(),
                n == entries.len(),
                i <= n,
                support_of(entries, votes, faulty, round, c) == acc + support_of(
                    entries.skip(i as int),
                    votes,
                    faulty,
                    round,
                    c,
                ),
                0 <= acc <= total_weight_of(entries),
            decreases n - i,
        {
            proof {
                lemma_support_step(entries, votes, faulty, round, c, i as int);
                lemma_weight_sums_bounded(entries.skip(i as int + 1), votes, faulty, round, c);
                lemma_weight_sums_bounded(entries, votes, faulty, round, c);
            }
            let e = self.weights.entries[i];
            if !crate::validators::contains_key(&self.faulty, e.0) && contains_vote(
                &self.votes,
                Vote { validator: e.0, round, candidate: c },
            ) {
                acc = acc + e.1 as u128;
            }
            i = i + 1;
        }
        proof {
            assert(entries.skip(n as int) =~= Seq::<(PublicKey, u64)>::empty());
        }
        acc
    }

    /// The weight of the validators not known to be faulty.
    fn honest_weight(&self) -> (r: u128)
        requires
            self.wf(),
        ensures
            r == honest_weight_of(self.weights@, self.faulty@),
    {
        let ghost entries = self.weights@;
        let ghost faulty = self.faulty@;
        let ghost votes = self.votes@;
        let n = self.weights.entries.len();
        let mut acc: u128 = 0;
        let mut i: usize = 0;
        proof {
            assert(entries.skip(0) =~= entries);
            lemma_weight_sums_bounded(entries, votes, faulty, 0, ProtoBlock(0));
        }
        while i < n
            invariant
                entries == self.weights@,
                faulty == self.faulty@,
                self.wf(),
                n == entries.len(),
                i <= n,
                honest_weight_of(entries, faulty) == acc + honest_weight_of(
                    entries.skip(i as int),
                    faulty,
                ),
                0 <= acc <= total_weight_of(entries),
            decreases n - i,
        {
            proof {
                lemma_honest_step(entries, faulty, i as int);
                lemma_weight_sums_bounded(
                    entries.skip(i as int + 1),
                    votes,
                    faulty,
                    0,
                    ProtoBlock(0),
                );
                lemma_weight_sums_bounded(entries, votes, faulty, 0, ProtoBlock(0));
            }
            let e = self.weights.entries[i];
            if !crate::validators::contains_key(&self.faulty, e.0) {
                acc = acc + e.1 as u128;
            }
            i = i + 1;
        }
        proof {
            assert(entries.skip(n as int) =~= Seq::<(PublicKey, u64)>::empty());
        }
        acc
    }

    /// Whether candidate `c` has quorum support at `round` among the
    /// recorded votes.
    fn check_quorum(&self, round: u64, c: ProtoBlock) -> (r: bool)
        requires
            self.wf(),
        ensures
            r == quorum(self.weights@, self.votes@, self.faulty@, round, c),
    {
        proof {
            lemma_weight_sums_bounded(self.weights@, self.votes@, self.faulty@, round, c);
        }
        let s = self.support(round, c);
        let h = self.honest_weight();
        3 * s > 2 * h
    }
}


impl Era {
    /// Handles one vote: drop it when the era is retired, the sender is not
    /// bonded or the vote is a duplicate; otherwise record it, detect
    /// equivocation and, while active, check finality.
    fn apply_vote(&mut self, v: Vote) -> (r: EraOutcome)
        requires
            old(self).wf(),
        ensures
            final(self).wf(),
            final(self)@ == old(self)@.record_vote(v),
            (r.evidence is None ==> final(self)@.faulty == old(self)@.faulty),
            (r.evidence matches Some((a, b)) ==> final(self)@.faulty == old(self)@.faulty.push(
                a.validator,
            ) && a.validator == b.validator && a.round == b.round && a.candidate != b.candidate && b
                == v && old(self)@.votes.contains(a)),
            old(self)@.finalized.is_prefix_of(final(self)@.finalized),
            (final(self)@.finalized == old(self)@.finalized || final(self)@.finalized == old(self)@.finalized.push(v.candidate)),
            (has_execution_request(r.effects@, old(self).era_id, v.candidate) <==> final(self)@.finalized != old(self)@.finalized),
            (has_era_end(r.effects@, old(self).era_id) <==> (final(self)@.state is Finishing && old(self)@.state is Active)),
            forall|i: int|
                0 <= i < r.effects@.len() ==> (#[trigger] r.effects@[i]) is RequestExecution
                    || r.effects@[i] is AnnounceEraEnd,
    {
        proof {
            lemma_record_vote_wf(old(self)@, v);
            assert(old(self)@.finalized =~= old(self)@.finalized.take(
                old(self)@.finalized.len() as int,
            ));
        }
        if self.state == EraState::Retired || !self.weights.is_bonded(v.validator) || contains_vote(
            &self.votes,
            v,
        ) {
            return EraOutcome { effects: Vec::new(), evidence: None };
        }
        let conflict = find_conflicting(&self.votes, v);
        self.votes.push(v);
        let mut evidence: Option<(Vote, Vote)> = None;
        match conflict {
            Some(w) => {
                if !crate::validators::contains_key(&self.faulty, v.validator) {
                    self.faulty.push(v.validator);
                    evidence = Some((w, v));
                }
            },
            None => {},
        }
        proof {
            assert(self@ == old(self)@.add_vote(v));
            lemma_add_vote_wf(old(self)@, v);
        }
        let effects = if self.state == EraState::Active {
            self.do_finalize(v.round, v.candidate)
        } else {
            Vec::new()
        };
        EraOutcome { effects, evidence }
    }

    /// Appends `c` to the finalized sequence when it is accepted, new and
    /// has quorum support at `round`, handing it to execution and announcing
    /// the era's end when its designated length is reached.
    fn do_finalize(&mut self, round: u64, c: ProtoBlock) -> (r: Vec<Effect>)
        requires
            old(self).wf(),
            old(self)@.state is Active,
        ensures
            final(self).wf(),
            final(self)@ == old(self)@.try_finalize(round, c),
            (has_execution_request(r@, old(self).era_id, c) <==> final(self)@.finalized != old(self)@.finalized),
            (has_era_end(r@, old(self).era_id) <==> final(self)@.state is Finishing),
            forall|i: int|
                0 <= i < r@.len() ==> (#[trigger] r@[i]) is RequestExecution || r@[i]
                    is AnnounceEraEnd,
    {
        proof {
            lemma_try_finalize_wf(old(self)@, round, c);
        }
        let ghost cs = self.candidates@;
        let i = match self.candidate_pos(c) {
            Some(i) => i,
            None => {
                proof {
                    lemma_candidate_index(cs, c);
                    if candidate_accepted(cs, c) {
                        let j = choose|j: int|
                            0 <= j < cs.len() && (#[trigger] cs[j]).proto_block == c && cs[j].state
                                is Accepted;
                        assert(has_candidate(cs, c));
                    }
                }
                return Vec::new();
            },
        };
        if self.candidates[i].state != CandidateState::Accepted {
            proof {
                lemma_candidate_index(cs, c);
                if candidate_accepted(cs, c) {
                    let j = choose|j: int|
                        0 <= j < cs.len() && (#[trigger] cs[j]).proto_block == c && cs[j].state
                            is Accepted;
                    assert(cs[j].proto_block == cs[i as int].proto_block);
                }
            }
            return Vec::new();
        }
        if contains_block(&self.finalized, c) {
            return Vec::new();
        }
        if !self.check_quorum(round, c) {
            return Vec::new();
        }
        let ctx = self.candidates[i].context;
        self.finalized.push(c);
        let mut r: Vec<Effect> = Vec::new();
        r.push(Effect::RequestExecution { era_id: self.era_id, proto_block: c, context: ctx });
        if self.finalized.len() as u64 == self.era_length {
            self.state = EraState::Finishing;
            let faulty_list = clone_keys(&self.faulty);
            r.push(Effect::AnnounceEraEnd { era_id: self.era_id, faulty: faulty_list });
        }
        proof {
            lemma_candidate_index(cs, c);
            assert(candidate_accepted(cs, c)) by {
                assert(cs[i as int].proto_block == c && cs[i as int].state is Accepted);
            }
            assert(self@ == old(self)@.try_finalize(round, c));
            assert(r@[0] matches Effect::RequestExecution { era_id: e2, proto_block: c2, context: _
            } && e2 == old(self).era_id && c2 == c);
            assert(has_execution_request(r@, old(self).era_id, c));
            if self@.state is Finishing {
                assert(r@[1] matches Effect::AnnounceEraEnd { era_id: e2, faulty: _ } && e2 == old(self).era_id);
                assert(has_era_end(r@, old(self).era_id));
            }
        }
        r
    }

    /// Handles one protocol payload addressed to this era. A payload that is
    /// not exactly one vote is rejected without any state change and without
    /// any effect; it never aborts the instance.
    pub fn handle_message(&mut self, payload: &Vec<u8>) -> (r: EraOutcome)
        requires
            old(self).wf(),
        ensures
            final(self).wf(),
            final(self)@ == old(self)@.handle_payload(payload@),
            (r.evidence is None ==> final(self)@.faulty == old(self)@.faulty),
            (r.evidence matches Some((a, b)) ==> final(self)@.faulty == old(self)@.faulty.push(
                a.validator,
            ) && a.validator == b.validator && a.round == b.round && a.candidate != b.candidate),
            old(self)@.finalized.is_prefix_of(final(self)@.finalized),
            forall|i: int|
                0 <= i < r.effects@.len() ==> (#[trigger] r.effects@[i]) is RequestExecution
                    || r.effects@[i] is AnnounceEraEnd,
            (has_era_end(r.effects@, old(self).era_id) <==> (final(self)@.state is Finishing && old(self)@.state is Active)),
            (parse_vote(payload@) is None ==> final(self)@ == old(self)@ && r.effects@.len() == 0
                && r.evidence is None),
    {
        proof {
            assert(old(self)@.finalized =~= old(self)@.finalized.take(
                old(self)@.finalized.len() as int,
            ));
        }
        let v = match decode_vote(payload.as_slice()) {
            Some(v) => v,
            None => {
                return EraOutcome { effects: Vec::new(), evidence: None };
            },
        };
        self.apply_vote(v)
    }

    /// Handles a timer for this era. After the era has ended this is a
    /// no-op that produces no effects; while active, the round advances, the
    /// node casts and broadcasts its own vote when one is due, and a new
    /// timer is always scheduled.
    pub fn handle_timer(&mut self, now: Timestamp, timer_interval: u64) -> (r: EraOutcome)
        requires
            old(self).wf(),
        ensures
            final(self).wf(),
            final(self)@ == old(self)@.tick(),
            (!(old(self)@.state is Active) ==> r.effects@.len() == 0 && final(self)@ == old(self)@
                && r.evidence is None),
            (old(self)@.state is Active ==> has_timer_request(r.effects@, old(self).era_id)),
            (r.evidence is None ==> final(self)@.faulty == old(self)@.faulty),
            (r.evidence matches Some((a, b)) ==> final(self)@.faulty == old(self)@.faulty.push(
                a.validator,
            ) && a.validator == b.validator && a.round == b.round && a.candidate != b.candidate),
            old(self)@.finalized.is_prefix_of(final(self)@.finalized),
    {
        proof {
            assert(old(self)@.finalized =~= old(self)@.finalized.take(
                old(self)@.finalized.len() as int,
            ));
        }
        if self.state != EraState::Active {
            return EraOutcome { effects: Vec::new(), evidence: None };
        }
        if self.current_round < u64::MAX {
            self.current_round = self.current_round + 1;
        }
        let ghost m1 = self@;
        let mut effects: Vec<Effect> = Vec::new();
        let mut evidence: Option<(Vote, Vote)> = None;
        let our = self.our_key;
        match our {
            Some(k) => {
                if self.weights.is_bonded(k) {
                    match self.next_votable() {
                        Some(c) => {
                            let v = Vote {
                                validator: k,
                                round: self.current_round,
                                candidate: c,
                            };
                            let payload = encode_vote(&v);
                            effects.push(
                                Effect::Broadcast {
                                    msg: ConsensusMessage::Protocol {
                                        era_id: self.era_id,
                                        payload,
                                    },
                                },
                            );
                            let mut out = self.apply_vote(v);
                            effects.append(&mut out.effects);
                            evidence = out.evidence;
                        },
                        None => {},
                    }
                }
            },
            None => {},
        }
        effects.push(
            Effect::ScheduleTimer {
                era_id: self.era_id,
                timestamp: Timestamp(now.0.saturating_add(timer_interval)),
            },
        );
        proof {
            assert(self@ == old(self)@.tick());
            let last = effects@.len() - 1;
            assert(effects@[last] matches Effect::ScheduleTimer { era_id: e2, timestamp: _ } && e2
                == old(self).era_id);
            assert(has_timer_request(effects@, old(self).era_id));
        }
        EraOutcome { effects, evidence }
    }

    /// Registers a newly proposed proto-block and issues exactly one
    /// validation request for it; a duplicate proposal while the candidate
    /// is already tracked is coalesced and issues none.
    pub fn propose_block(&mut self, pb: ProtoBlock, ctx: BlockContext) -> (r: Vec<Effect>)
        requires
            old(self).wf(),
        ensures
            final(self).wf(),
            final(self)@ == old(self)@.propose(pb, ctx),
            r@.len() <= 1,
            ((r@.len() == 1) <==> (old(self)@.state is Active && !has_candidate(
                old(self)@.candidates,
                pb,
            ))),
            (r@.len() == 1 ==> r@[0] == (Effect::RequestValidation {
                era_id: old(self).era_id,
                proto_block: pb,
            })),
    {
        proof {
            lemma_propose_wf(old(self)@, pb, ctx);
        }
        if self.state != EraState::Active {
            return Vec::new();
        }
        match self.candidate_pos(pb) {
            Some(i) => {
                proof {
                    lemma_candidate_index(self.candidates@, pb);
                    assert(self.candidates@[i as int].proto_block == pb);
                    assert(has_candidate(self.candidates@, pb));
                }
                return Vec::new();
            },
            None => {
                proof {
                    lemma_candidate_index(self.candidates@, pb);
                }
            },
        }
        self.candidates.push(
            Candidate { proto_block: pb, context: ctx, state: CandidateState::ValidationRequested },
        );
        let mut r: Vec<Effect> = Vec::new();
        r.push(Effect::RequestValidation { era_id: self.era_id, proto_block: pb });
        r
    }

    /// Handles a positive validation result: the candidate becomes
    /// eligible, and finality is checked against the votes already recorded
    /// for it.
    pub fn accept_block(&mut self, pb: ProtoBlock) -> (r: Vec<Effect>)
        requires
            old(self).wf(),
        ensures
            final(self).wf(),
            final(self)@ == old(self)@.accept(pb),
            old(self)@.finalized.is_prefix_of(final(self)@.finalized),
            (has_execution_request(r@, old(self).era_id, pb) <==> final(self)@.finalized != old(self)@.finalized),
            (has_era_end(r@, old(self).era_id) <==> (final(self)@.state is Finishing && old(self)@.state is Active)),
            forall|i: int|
                0 <= i < r@.len() ==> (#[trigger] r@[i]) is RequestExecution || r@[i]
                    is AnnounceEraEnd,
    {
        proof {
            lemma_accept_wf(old(self)@, pb);
            assert(old(self)@.finalized =~= old(self)@.finalized.take(
                old(self)@.finalized.len() as int,
            ));
        }
        if self.state != EraState::Active {
            return Vec::new();
        }
        let i = match self.candidate_pos(pb) {
            Some(i) => i,
            None => {
                return Vec::new();
            },
        };
        if self.candidates[i].state != CandidateState::ValidationRequested {
            return Vec::new();
        }
        self.candidates[i].state = CandidateState::Accepted;
        let ghost m1 = self@;
        proof {
            assert(m1.candidates =~= old(self)@.candidates.update(
                i as int,
                Candidate { state: CandidateState::Accepted, ..old(self)@.candidates[i as int] },
            ));
        }
        if contains_block(&self.finalized, pb) {
            proof {
                assert(self@ == old(self)@.accept(pb));
            }
            return Vec::new();
        }
        let n = self.votes.len();
        let mut j: usize = 0;
        let mut found: Option<u64> = None;
        while j < n && found.is_none()
            invariant
                n == self.votes@.len(),
                j <= n,
                self.wf(),
                (found is None ==> forall|t: int|
                    0 <= t < j ==> !((#[trigger] self.votes@[t]).candidate == pb && quorum(
                        self.weights@,
                        self.votes@,
                        self.faulty@,
                        self.votes@[t].round,
                        pb,
                    ))),
                (found matches Some(rnd) ==> exists|t: int|
                    0 <= t < n && (#[trigger] self.votes@[t]).candidate == pb && rnd
                        == self.votes@[t].round && quorum(
                        self.weights@,
                        self.votes@,
                        self.faulty@,
                        self.votes@[t].round,
                        pb,
                    )),
            decreases n - j,
        {
            if self.votes[j].candidate == pb {
                let rnd = self.votes[j].round;
                if self.check_quorum(rnd, pb) {
                    found = Some(rnd);
                }
            }
            j = j + 1;
        }
        match found {
            None => {
                proof {
                    assert(!(exists|jj: int|
                        0 <= jj < m1.votes.len() && (#[trigger] m1.votes[jj]).candidate == pb
                            && quorum(
                            m1.weights,
                            m1.votes,
                            m1.faulty,
                            m1.votes[jj].round,
                            pb,
                        )));
                    assert(self@ == old(self)@.accept(pb));
                }
                Vec::new()
            },
            Some(rnd) => {
                proof {
                    lemma_candidate_index(old(self)@.candidates, pb);
                    assert(candidate_accepted(m1.candidates, pb)) by {
                        assert(m1.candidates[i as int].proto_block == pb && m1.candidates[
                            i as int].state is Accepted);
                    }
                    let t = choose|t: int|
                        0 <= t < m1.votes.len() && (#[trigger] m1.votes[t]).candidate == pb && rnd
                            == m1.votes[t].round && quorum(
                            m1.weights,
                            m1.votes,
                            m1.faulty,
                            m1.votes[t].round,
                            pb,
                        );
                    assert(quorum(m1.weights, m1.votes, m1.faulty, rnd, pb));
                }
                let r = self.do_finalize(rnd, pb);
                proof {
                    assert(self@ == old(self)@.accept(pb));
                }
                r
            },
        }
    }

    /// Handles a negative validation result: the candidate is rejected,
    /// never trusted, and the peer that sent it is recorded as a suspect.
    pub fn reject_block(&mut self, sender: NodeId, pb: ProtoBlock) -> (r: Vec<Effect>)
        requires
            old(self).wf(),
        ensures
            final(self).wf(),
            final(self)@ == old(self)@.reject(sender, pb),
            r@.len() == 0,
    {
        proof {
            lemma_reject_wf(old(self)@, sender, pb);
        }
        if self.state != EraState::Active {
            return Vec::new();
        }
        let i = match self.candidate_pos(pb) {
            Some(i) => i,
            None => {
                return Vec::new();
            },
        };
        if self.candidates[i].state != CandidateState::ValidationRequested {
            return Vec::new();
        }
        self.candidates[i].state = CandidateState::Rejected;
        self.suspects.push(sender);
        proof {
            assert(self@.candidates =~= old(self)@.candidates.update(
                i as int,
                Candidate { state: CandidateState::Rejected, ..old(self)@.candidates[i as int] },
            ));
            assert(self@ == old(self)@.reject(sender, pb));
        }
        Vec::new()
    }
}

} // verus!
