//! The era supervisor: the single owner of all live protocol instances. It
//! creates an instance when an era's validator weights become known, routes
//! every inbound event to the instance of its era, retires eras outside the
//! bonded window, and aggregates fault evidence across eras so that evidence
//! requests can be answered after an era's instance has wound down.

use crate::era::{
    lemma_accept_wf, lemma_handle_payload_wf, lemma_propose_wf, lemma_reject_wf, lemma_tick_wf,
    Era, EraModel, EraState, Vote,
};
use crate::messages::{
    event_wf, ConsensusMessage, Effect, Event, GetValidatorsResult,
};
use crate::types::{BlockContext, BlockHeader, EraId, NodeId, ProtoBlock, PublicKey, Timestamp};
use crate::validators::ValidatorWeights;
use vstd::prelude::*;

verus! {

/// The configuration of the consensus component.
#[derive(Clone, Copy, PartialEq, Eq, Structural, Debug)]
pub struct Config {
    /// How many blocks each era finalizes before it ends.
    pub era_length: u64,
    /// The spacing between an era's timer ticks.
    pub timer_interval: u64,
    /// For how many eras back a validator stays bonded: evidence about an
    /// era can be requested while it is within this window.
    pub bonded_eras: u64,
}

impl Config {
    /// A usable configuration: eras finalize at least one block.
    pub open spec fn wf(self) -> bool {
        self.era_length > 0
    }
}

/// One record of the cross-era evidence index: the validator `pub_key`
/// equivocated in `era_id`, witnessed by the conflicting pair of votes.
#[derive(Clone, Copy, PartialEq, Eq, Structural, Debug)]
pub struct EvidenceEntry {
    /// The era the equivocation happened in.
    pub era_id: EraId,
    /// The offending validator.
    pub pub_key: PublicKey,
    /// The earlier of the two conflicting votes.
    pub vote_a: Vote,
    /// The later of the two conflicting votes.
    pub vote_b: Vote,
}

/// A record really witnesses an equivocation: both votes are signed by the
/// recorded validator, for one round, for different candidates.
pub open spec fn entry_wf(e: EvidenceEntry) -> bool {
    e.vote_a.validator == e.pub_key && e.vote_b.validator == e.pub_key && e.vote_a.round
        == e.vote_b.round && e.vote_a.candidate != e.vote_b.candidate
}

/// The index lists validator `k` as an equivocator of era `e`.
pub open spec fn evidence_listed(ev: Seq<EvidenceEntry>, e: EraId, k: PublicKey) -> bool {
    exists|i: int| 0 <= i < ev.len() && (#[trigger] ev[i]).era_id == e && ev[i].pub_key == k
}

/// The position of the instance for era `id`, or a negative number when
/// there is none.
pub open spec fn era_index(eras: Seq<Era>, id: EraId) -> int
    decreases eras.len(),
{
    if eras.len() == 0 {
        -1
    } else if eras[0].era_id == id {
        0
    } else {
        let r = era_index(eras.drop_first(), id);
        if r < 0 {
            -1
        } else {
            1 + r
        }
    }
}

/// `era_index` finds the first instance of the era, and a negative result
/// means there is none.
pub proof fn lemma_era_index(eras: Seq<Era>, id: EraId)
    ensures
        era_index(eras, id) < 0 ==> forall|i: int|
            0 <= i < eras.len() ==> (#[trigger] eras[i]).era_id != id,
        era_index(eras, id) >= 0 ==> 0 <= era_index(eras, id) < eras.len() && eras[era_index(
            eras,
            id,
        )].era_id == id,
        forall|j: int| 0 <= j < era_index(eras, id) ==> (#[trigger] eras[j]).era_id != id,
    decreases eras.len(),
{
    if eras.len() > 0 && eras[0].era_id != id {
        lemma_era_index(eras.drop_first(), id);
        let r = era_index(eras.drop_first(), id);
        if r < 0 {
            assert forall|i: int| 0 <= i < eras.len() implies (#[trigger] eras[i]).era_id != id by {
                if i > 0 {
                    assert(eras.drop_first()[i - 1] == eras[i]);
                }
            }
        } else {
            assert forall|j: int| 0 <= j < era_index(eras, id) implies (#[trigger] eras[j]).era_id
                != id by {
                if j > 0 {
                    assert(eras.drop_first()[j - 1] == eras[j]);
                }
            }
        }
    }
}

/// An instance as it stands after the supervisor consumed its era's end:
/// once an instance reports `Finishing`, the supervisor retires it.
pub open spec fn retired_view(m: EraModel) -> EraModel {
    if m.state is Finishing {
        EraModel { state: EraState::Retired, ..m }
    } else {
        m
    }
}

/// An event routed to one era's instance.
pub enum RoutedEvent {
    /// A scheduled timer.
    Timer { timestamp: Timestamp },
    /// A protocol payload received from a peer.
    Payload { payload: Vec<u8> },
    /// A newly proposed proto-block.
    Propose { proto_block: ProtoBlock, context: BlockContext },
    /// A positive external validation result.
    Accept { proto_block: ProtoBlock },
    /// A negative external validation result.
    Invalid { sender: NodeId, proto_block: ProtoBlock },
}

/// What one routed event does to the model of its era's instance.
pub open spec fn routed_step(m: EraModel, ev: RoutedEvent) -> EraModel {
    match ev {
        RoutedEvent::Timer { .. } => m.tick(),
        RoutedEvent::Payload { payload } => m.handle_payload(payload@),
        RoutedEvent::Propose { proto_block, context } => m.propose(proto_block, context),
        RoutedEvent::Accept { proto_block } => m.accept(proto_block),
        RoutedEvent::Invalid { sender, proto_block } => m.reject(sender, proto_block),
    }
}

/// Every routed step preserves the instance's consistency, only appends to
/// its finalized sequence, and touches neither its identity, weights,
/// length nor key.
pub proof fn lemma_routed_step_wf(m: EraModel, ev: RoutedEvent)
    requires
        m.wf(),
    ensures
        routed_step(m, ev).wf(),
        m.finalized.is_prefix_of(routed_step(m, ev).finalized),
        routed_step(m, ev).era_id == m.era_id,
        routed_step(m, ev).weights == m.weights,
        routed_step(m, ev).era_length == m.era_length,
        routed_step(m, ev).our_key == m.our_key,
        retired_view(routed_step(m, ev)).wf(),
        retired_view(routed_step(m, ev)).finalized == routed_step(m, ev).finalized,
        retired_view(routed_step(m, ev)).faulty == routed_step(m, ev).faulty,
{
    assert(m.finalized =~= m.finalized.take(m.finalized.len() as int));
    match ev {
        RoutedEvent::Timer { .. } => {
            lemma_tick_wf(m);
        },
        RoutedEvent::Payload { payload } => {
            lemma_handle_payload_wf(m, payload@);
        },
        RoutedEvent::Propose { proto_block, context } => {
            lemma_propose_wf(m, proto_block, context);
        },
        RoutedEvent::Accept { proto_block } => {
            lemma_accept_wf(m, proto_block);
        },
        RoutedEvent::Invalid { sender, proto_block } => {
            lemma_reject_wf(m, sender, proto_block);
        },
    }
}

/// Listing survives any extension of the evidence index.
pub proof fn lemma_listed_prefix(ev1: Seq<EvidenceEntry>, ev2: Seq<EvidenceEntry>, e: EraId, k: PublicKey)
    requires
        ev1.is_prefix_of(ev2),
        evidence_listed(ev1, e, k),
    ensures
        evidence_listed(ev2, e, k),
{
    let i = choose|i: int| 0 <= i < ev1.len() && (#[trigger] ev1[i]).era_id == e && ev1[i].pub_key
        == k;
    assert(ev1 =~= ev2.take(ev1.len() as int));
    assert(ev2[i] == ev1[i]);
}

/// The era supervisor: all live protocol instances keyed by era, the
/// cross-era evidence index, and the window bookkeeping.
pub struct EraSupervisor {
    /// The component's configuration.
    pub config: Config,
    /// The key this node votes with, when it is a validator.
    pub our_key: Option<PublicKey>,
    /// The most recent era the supervisor has created.
    pub current_era: EraId,
    /// The protocol instances, one per era, each era at most once.
    pub eras: Vec<Era>,
    /// The cross-era index of equivocation evidence, append-only except for
    /// the purge of eras that left the bonded window.
    pub evidence: Vec<EvidenceEntry>,
}

/// Era `e` is within the supervisor's bonded window: evidence about it may
/// still be requested.
pub open spec fn in_window(s: EraSupervisor, e: EraId) -> bool {
    e.0 + s.config.bonded_eras >= s.current_era.0
}

impl EraSupervisor {
    /// A consistent supervisor: a usable configuration; consistent
    /// instances with unique era identifiers, none beyond the current era;
    /// an index of genuine evidence records; and, for every era within the
    /// bonded window, an index entry for each of its detected equivocators.
    pub open spec fn wf(self) -> bool {
        &&& self.config.wf()
        &&& (forall|i: int| 0 <= i < self.eras@.len() ==> (#[trigger] self.eras@[i]).wf())
        &&& (forall|i: int, j: int|
            0 <= i < j < self.eras@.len() ==> (#[trigger] self.eras@[i]).era_id != (
            #[trigger] self.eras@[j]).era_id)
        &&& (forall|i: int|
            0 <= i < self.eras@.len() ==> (#[trigger] self.eras@[i]).era_id.0
                <= self.current_era.0)
        &&& (forall|i: int|
            0 <= i < self.evidence@.len() ==> entry_wf(#[trigger] self.evidence@[i])
                && self.evidence@[i].era_id.0 <= self.current_era.0)
        &&& (forall|i: int, k: PublicKey|
            0 <= i < self.eras@.len() && in_window(self, self.eras@[i].era_id) && (
            #[trigger] self.eras@[i]@.faulty.contains(k)) ==> evidence_listed(
                self.evidence@,
                self.eras@[i].era_id,
                k,
            ))
    }

    /// A supervisor owning one fresh instance for `current_era`, seeded
    /// with that era's validator weights.
    pub fn new(
        current_era: EraId,
        weights: ValidatorWeights,
        config: Config,
        our_key: Option<PublicKey>,
    ) -> (r: EraSupervisor)
        requires
            weights.wf(),
            config.wf(),
        ensures
            r.wf(),
            r.config == config,
            r.current_era == current_era,
            r.evidence@.len() == 0,
            r.eras@.len() == 1,
            r.eras@[0].era_id == current_era,
            r.eras@[0]@.state is Active,
            r.eras@[0]@.weights == weights@,
            r.eras@[0]@.finalized.len() == 0,
            r.eras@[0]@.faulty.len() == 0,
    {
        let era = Era::new(current_era, weights, config.era_length, our_key);
        let mut eras: Vec<Era> = Vec::new();
        eras.push(era);
        let r = EraSupervisor { config, our_key, current_era, eras, evidence: Vec::new() };
        r
    }

    /// The position of the instance for era `id`, when there is one.
    fn find_era(&self, id: EraId) -> (r: Option<usize>)
        ensures
            (r matches Some(i) ==> i == era_index(self.eras@, id) && i < self.eras@.len()),
            r is None ==> era_index(self.eras@, id) < 0,
    {
        proof {
            lemma_era_index(self.eras@, id);
        }
        let n = self.eras.len();
        let mut i: usize = 0;
        while i < n
            invariant
                n == self.eras@.len(),
                i <= n,
                forall|j: int| 0 <= j < i ==> (#[trigger] self.eras@[j]).era_id != id,
            decreases n - i,
        {
            if self.eras[i].era_id == id {
                proof {
                    lemma_era_index(self.eras@, id);
                }
                return Some(i);
            }
            i = i + 1;
        }
        None
    }

    /// Routes one event to the instance of its era. An event for an unknown
    /// or retired era is dropped silently. When the instance consumes its
    /// era's end, the supervisor retires it; newly detected equivocations
    /// are appended to the cross-era evidence index.
    fn handle_era_event(&mut self, era_id: EraId, ev: RoutedEvent) -> (r: Vec<Effect>)
        requires
            old(self).wf(),
        ensures
            final(self).wf(),
            final(self).eras@.len() == old(self).eras@.len(),
            final(self).current_era == old(self).current_era,
            final(self).config == old(self).config,
            final(self).our_key == old(self).our_key,
            old(self).evidence@.is_prefix_of(final(self).evidence@),
            forall|i: int|
                0 <= i < old(self).eras@.len() && (#[trigger] old(self).eras@[i]).era_id != era_id
                    ==> final(self).eras@[i] == old(self).eras@[i],
            forall|i: int|
                0 <= i < old(self).eras@.len() ==> (#[trigger] old(self).eras@[i])@.finalized.is_prefix_of(final(self).eras@[i]@.finalized) && final(self).eras@[i].era_id == old(self).eras@[i].era_id,
            (era_index(old(self).eras@, era_id) < 0 ==> *final(self) == *old(self) && r@.len() == 0),
            (era_index(old(self).eras@, era_id) >= 0 ==> final(self).eras@[era_index(
                old(self).eras@,
                era_id,
            )]@ == retired_view(
                routed_step(old(self).eras@[era_index(old(self).eras@, era_id)]@, ev),
            )),
            ((ev matches RoutedEvent::Timer { .. }) && era_index(old(self).eras@, era_id) >= 0 && !(
            old(self).eras@[era_index(old(self).eras@, era_id)]@.state is Active) ==> r@.len()
                == 0),
            (ev matches RoutedEvent::Propose { proto_block: pb, context: _ } ==> (era_index(
                old(self).eras@,
                era_id,
            ) >= 0 ==> r@.len() <= 1 && ((r@.len() == 1) <==> (old(self).eras@[era_index(
                old(self).eras@,
                era_id,
            )]@.state is Active && !crate::era::has_candidate(
                old(self).eras@[era_index(old(self).eras@, era_id)]@.candidates,
                pb,
            ))) && (r@.len() == 1 ==> r@[0] == (Effect::RequestValidation {
                era_id,
                proto_block: pb,
            })))),
    {
        let ghost s0 = *old(self);
        let idx = match self.find_era(era_id) {
            Some(i) => i,
            None => {
                return Vec::new();
            },
        };
        proof {
            lemma_era_index(s0.eras@, era_id);
            lemma_routed_step_wf(s0.eras@[idx as int]@, ev);
        }
        let ghost m0 = self.eras@[idx as int]@;
        let interval = self.config.timer_interval;
        let era = &mut self.eras[idx];
        let (effects, evidence) = match ev {
            RoutedEvent::Timer { timestamp } => {
                let out = era.handle_timer(timestamp, interval);
                (out.effects, out.evidence)
            },
            RoutedEvent::Payload { payload } => {
                let out = era.handle_message(&payload);
                (out.effects, out.evidence)
            },
            RoutedEvent::Propose { proto_block, context } => (
                era.propose_block(proto_block, context),
                None,
            ),
            RoutedEvent::Accept { proto_block } => (era.accept_block(proto_block), None),
            RoutedEvent::Invalid { sender, proto_block } => (
                era.reject_block(sender, proto_block),
                None,
            ),
        };
        if era.state == EraState::Finishing {
            era.state = EraState::Retired;
        }
        let ghost m2 = self.eras@[idx as int]@;
        proof {
            assert(m2 == retired_view(routed_step(m0, ev)));
        }
        match evidence {
            Some((a, b)) => {
                self.evidence.push(
                    EvidenceEntry { era_id, pub_key: a.validator, vote_a: a, vote_b: b },
                );
            },
            None => {},
        }
        proof {
            assert(s0.evidence@.is_prefix_of(self.evidence@)) by {
                if self.evidence@.len() == s0.evidence@.len() {
                    assert(s0.evidence@ =~= self.evidence@.take(s0.evidence@.len() as int));
                } else {
                    assert(s0.evidence@ =~= self.evidence@.take(s0.evidence@.len() as int));
                }
            }
            // The updated instance is consistent and every listed fault of
            // an in-window era still has an index entry.
            assert forall|i: int, k: PublicKey|
                0 <= i < self.eras@.len() && in_window(*self, self.eras@[i].era_id) && (
                #[trigger] self.eras@[i]@.faulty.contains(k)) implies evidence_listed(
                self.evidence@,
                self.eras@[i].era_id,
                k,
            ) by {
                if i == idx {
                    if m2.faulty == m0.faulty {
                        assert(evidence_listed(s0.evidence@, s0.eras@[i].era_id, k));
                        lemma_listed_prefix(
                            s0.evidence@,
                            self.evidence@,
                            s0.eras@[i].era_id,
                            k,
                        );
                    } else {
                        let (a, b) = evidence->Some_0;
                        assert(m2.faulty == m0.faulty.push(a.validator));
                        if k == a.validator {
                            let last = self.evidence@.len() - 1;
                            assert(self.evidence@[last].era_id == era_id && self.evidence@[
                                last].pub_key == k);
                        } else {
                            assert(m0.faulty.contains(k)) by {
                                let t = choose|t: int|
                                    0 <= t < m2.faulty.len() && m2.faulty[t] == k;
                                assert(m2.faulty[t] == m0.faulty.push(a.validator)[t]);
                                assert(t < m0.faulty.len());
                            }
                            assert(evidence_listed(s0.evidence@, s0.eras@[i].era_id, k));
                            lemma_listed_prefix(
                                s0.evidence@,
                                self.evidence@,
                                s0.eras@[i].era_id,
                                k,
                            );
                        }
                    }
                } else {
                    assert(self.eras@[i] == s0.eras@[i]);
                    assert(evidence_listed(s0.evidence@, s0.eras@[i].era_id, k));
                    lemma_listed_prefix(s0.evidence@, self.evidence@, s0.eras@[i].era_id, k);
                }
            }
        }
        effects
    }
}


impl EraSupervisor {
    /// Looks up the instance for the era; if absent (already retired or not
    /// yet created), the timer is a no-op. Otherwise forwards the timer to
    /// the instance and returns its effects.
    pub fn handle_timer(&mut self, era_id: EraId, timestamp: Timestamp) -> (r: Vec<Effect>)
        requires
            old(self).wf(),
        ensures
            final(self).wf(),
            final(self).eras@.len() == old(self).eras@.len(),
            old(self).evidence@.is_prefix_of(final(self).evidence@),
            forall|i: int|
                0 <= i < old(self).eras@.len() && (#[trigger] old(self).eras@[i]).era_id != era_id
                    ==> final(self).eras@[i] == old(self).eras@[i],
            forall|i: int|
                0 <= i < old(self).eras@.len() ==> (#[trigger] old(self).eras@[i])@.finalized.is_prefix_of(final(self).eras@[i]@.finalized) && final(self).eras@[i].era_id == old(self).eras@[i].era_id,
            (era_index(old(self).eras@, era_id) < 0 ==> *final(self) == *old(self) && r@.len()
                == 0),
            (era_index(old(self).eras@, era_id) >= 0 ==> final(self).eras@[era_index(
                old(self).eras@,
                era_id,
            )]@ == retired_view(old(self).eras@[era_index(old(self).eras@, era_id)]@.tick())),
            (era_index(old(self).eras@, era_id) >= 0 && !(old(self).eras@[era_index(
                old(self).eras@,
                era_id,
            )]@.state is Active) ==> r@.len() == 0),
    {
        self.handle_era_event(era_id, RoutedEvent::Timer { timestamp })
    }

    /// Handles an incoming consensus message. A protocol payload is
    /// forwarded to the instance of its era; one for an unknown or retired
    /// era is silently dropped. An evidence request is answered from the
    /// cross-era index when it lists the validator for any era up to the
    /// requested one, and is otherwise ignored.
    pub fn handle_message(&mut self, sender: NodeId, msg: ConsensusMessage) -> (r: Vec<Effect>)
        requires
            old(self).wf(),
        ensures
            final(self).wf(),
            final(self).eras@.len() == old(self).eras@.len(),
            old(self).evidence@.is_prefix_of(final(self).evidence@),
            forall|i: int|
                0 <= i < old(self).eras@.len() ==> (#[trigger] old(self).eras@[i])@.finalized.is_prefix_of(final(self).eras@[i]@.finalized) && final(self).eras@[i].era_id == old(self).eras@[i].era_id,
            (msg matches ConsensusMessage::Protocol { era_id: e, payload: p } ==> (forall|i: int|
                0 <= i < old(self).eras@.len() && (#[trigger] old(self).eras@[i]).era_id != e
                    ==> final(self).eras@[i] == old(self).eras@[i]) && (era_index(
                old(self).eras@,
                e,
            ) < 0 ==> *final(self) == *old(self) && r@.len() == 0) && (era_index(old(self).eras@, e)
                >= 0 ==> final(self).eras@[era_index(old(self).eras@, e)]@ == retired_view(
                old(self).eras@[era_index(old(self).eras@, e)]@.handle_payload(p@),
            ))),
            (msg matches ConsensusMessage::EvidenceRequest { era_id: e, pub_key: k } ==> *final(self) == *old(self) && r@.len() <= 1 && ((r@.len() == 1) <==> (exists|i: int|
                0 <= i < old(self).evidence@.len() && (#[trigger] old(self).evidence@[i]).pub_key
                    == k && old(self).evidence@[i].era_id.0 <= e.0)) && (r@.len() == 1 ==> (r@[0]
                matches Effect::ProvideEvidence { to, era_id: e2, pub_key: k2 } && to == sender
                && k2 == k && e2.0 <= e.0 && evidence_listed(old(self).evidence@, e2, k)))),
    {
        match msg {
            ConsensusMessage::Protocol { era_id, payload } => self.handle_era_event(
                era_id,
                RoutedEvent::Payload { payload },
            ),
            ConsensusMessage::EvidenceRequest { era_id, pub_key } => self.answer_evidence_request(
                sender,
                era_id,
                pub_key,
            ),
        }
    }

    /// Answers an evidence request from the cross-era index: the first
    /// record of the validator for any era up to the requested one. Nothing
    /// is sent when the index holds none: a negative cannot be proved.
    fn answer_evidence_request(&self, sender: NodeId, era_id: EraId, pub_key: PublicKey) -> (r:
        Vec<Effect>)
        ensures
            r@.len() <= 1,
            ((r@.len() == 1) <==> (exists|i: int|
                0 <= i < self.evidence@.len() && (#[trigger] self.evidence@[i]).pub_key == pub_key
                    && self.evidence@[i].era_id.0 <= era_id.0)),
            (r@.len() == 1 ==> (r@[0] matches Effect::ProvideEvidence { to, era_id: e2, pub_key: k2
            } && to == sender && k2 == pub_key && e2.0 <= era_id.0 && evidence_listed(
                self.evidence@,
                e2,
                pub_key,
            ))),
    {
        let n = self.evidence.len();
        let mut i: usize = 0;
        while i < n
            invariant
                n == self.evidence@.len(),
                i <= n,
                forall|j: int|
                    0 <= j < i ==> !((#[trigger] self.evidence@[j]).pub_key == pub_key
                        && self.evidence@[j].era_id.0 <= era_id.0),
            decreases n - i,
        {
            let e = self.evidence[i];
            if e.pub_key == pub_key && e.era_id.0 <= era_id.0 {
                let mut r: Vec<Effect> = Vec::new();
                r.push(Effect::ProvideEvidence { to: sender, era_id: e.era_id, pub_key: e.pub_key });
                proof {
                    assert(self.evidence@[i as int].era_id == e.era_id && self.evidence@[
                        i as int].pub_key == pub_key);
                    assert(evidence_listed(self.evidence@, e.era_id, pub_key));
                }
                return r;
            }
            i = i + 1;
        }
        Vec::new()
    }

    /// Registers a new candidate proto-block with the era's instance and
    /// issues an external validation request; the content is not yet
    /// trusted. Duplicate proposals while one request is outstanding are
    /// coalesced, not re-sent.
    pub fn handle_new_proto_block(
        &mut self,
        era_id: EraId,
        proto_block: ProtoBlock,
        block_context: BlockContext,
    ) -> (r: Vec<Effect>)
        requires
            old(self).wf(),
        ensures
            final(self).wf(),
            final(self).eras@.len() == old(self).eras@.len(),
            old(self).evidence@.is_prefix_of(final(self).evidence@),
            forall|i: int|
                0 <= i < old(self).eras@.len() && (#[trigger] old(self).eras@[i]).era_id != era_id
                    ==> final(self).eras@[i] == old(self).eras@[i],
            forall|i: int|
                0 <= i < old(self).eras@.len() ==> (#[trigger] old(self).eras@[i])@.finalized.is_prefix_of(final(self).eras@[i]@.finalized) && final(self).eras@[i].era_id == old(self).eras@[i].era_id,
            (era_index(old(self).eras@, era_id) < 0 ==> *final(self) == *old(self) && r@.len()
                == 0),
            (era_index(old(self).eras@, era_id) >= 0 ==> final(self).eras@[era_index(
                old(self).eras@,
                era_id,
            )]@ == retired_view(
                old(self).eras@[era_index(old(self).eras@, era_id)]@.propose(
                    proto_block,
                    block_context,
                ),
            )),
            r@.len() <= 1,
            (era_index(old(self).eras@, era_id) >= 0 ==> ((r@.len() == 1) <==> (old(self).eras@[era_index(old(self).eras@, era_id)]@.state is Active
                && !crate::era::has_candidate(
                old(self).eras@[era_index(old(self).eras@, era_id)]@.candidates,
                proto_block,
            )))),
            (r@.len() == 1 ==> r@[0] == (Effect::RequestValidation { era_id, proto_block })),
    {
        self.handle_era_event(
            era_id,
            RoutedEvent::Propose { proto_block, context: block_context },
        )
    }

    /// Delivers a positive external validation result: the proto-block may
    /// now be used by the era's protocol.
    pub fn handle_accept_proto_block(&mut self, era_id: EraId, proto_block: ProtoBlock) -> (r:
        Vec<Effect>)
        requires
            old(self).wf(),
        ensures
            final(self).wf(),
            final(self).eras@.len() == old(self).eras@.len(),
            old(self).evidence@.is_prefix_of(final(self).evidence@),
            forall|i: int|
                0 <= i < old(self).eras@.len() && (#[trigger] old(self).eras@[i]).era_id != era_id
                    ==> final(self).eras@[i] == old(self).eras@[i],
            forall|i: int|
                0 <= i < old(self).eras@.len() ==> (#[trigger] old(self).eras@[i])@.finalized.is_prefix_of(final(self).eras@[i]@.finalized) && final(self).eras@[i].era_id == old(self).eras@[i].era_id,
            (era_index(old(self).eras@, era_id) < 0 ==> *final(self) == *old(self) && r@.len()
                == 0),
            (era_index(old(self).eras@, era_id) >= 0 ==> final(self).eras@[era_index(
                old(self).eras@,
                era_id,
            )]@ == retired_view(
                old(self).eras@[era_index(old(self).eras@, era_id)]@.accept(proto_block),
            )),
    {
        self.handle_era_event(era_id, RoutedEvent::Accept { proto_block })
    }

    /// Delivers a negative external validation result: the proto-block is
    /// rejected and its sender recorded for possible sanctioning.
    pub fn handle_invalid_proto_block(
        &mut self,
        era_id: EraId,
        sender: NodeId,
        proto_block: ProtoBlock,
    ) -> (r: Vec<Effect>)
        requires
            old(self).wf(),
        ensures
            final(self).wf(),
            final(self).eras@.len() == old(self).eras@.len(),
            old(self).evidence@.is_prefix_of(final(self).evidence@),
            forall|i: int|
                0 <= i < old(self).eras@.len() && (#[trigger] old(self).eras@[i]).era_id != era_id
                    ==> final(self).eras@[i] == old(self).eras@[i],
            forall|i: int|
                0 <= i < old(self).eras@.len() ==> (#[trigger] old(self).eras@[i])@.finalized.is_prefix_of(final(self).eras@[i]@.finalized) && final(self).eras@[i].era_id == old(self).eras@[i].era_id,
            (era_index(old(self).eras@, era_id) < 0 ==> *final(self) == *old(self) && r@.len()
                == 0),
            (era_index(old(self).eras@, era_id) >= 0 ==> final(self).eras@[era_index(
                old(self).eras@,
                era_id,
            )]@ == retired_view(
                old(self).eras@[era_index(old(self).eras@, era_id)]@.reject(sender, proto_block),
            )),
    {
        self.handle_era_event(era_id, RoutedEvent::Invalid { sender, proto_block })
    }

    /// A block has been appended to the canonical chain. For a switch block
    /// this requests the next era's validator weights from the execution
    /// layer; other blocks need no action from consensus.
    pub fn handle_linear_chain_block(&mut self, block_header: BlockHeader) -> (r: Vec<Effect>)
        requires
            old(self).wf(),
        ensures
            final(self).wf(),
            *final(self) == *old(self),
            (block_header.switch_block ==> r@.len() == 1 && r@[0] == (Effect::RequestValidators {
                block_header,
            })),
            (!block_header.switch_block ==> r@.len() == 0),
    {
        let mut r: Vec<Effect> = Vec::new();
        if block_header.switch_block {
            r.push(Effect::RequestValidators { block_header });
        }
        r
    }
}


impl EraSupervisor {
    /// Creates the protocol instance for the era following the switch
    /// block's era, seeded with that era's validator weights, and begins
    /// accepting events for it. Creating an era advances the bonded window:
    /// instances that fall outside it are retired and their evidence is
    /// purged. An era that already exists is not created twice.
    pub fn handle_get_validators_response(
        &mut self,
        block_header: BlockHeader,
        validator_weights: ValidatorWeights,
    ) -> (r: Vec<Effect>)
        requires
            old(self).wf(),
            validator_weights.wf(),
        ensures
            final(self).wf(),
            old(self).eras@.len() <= final(self).eras@.len() <= old(self).eras@.len() + 1,
            final(self).current_era.0 >= old(self).current_era.0,
            final(self).config == old(self).config,
            forall|i: int|
                0 <= i < old(self).eras@.len() ==> (#[trigger] final(self).eras@[i]) == old(self).eras@[i] || final(self).eras@[i]@ == (EraModel {
                    state: EraState::Retired,
                    ..old(self).eras@[i]@
                }),
            forall|i: int|
                0 <= i < old(self).eras@.len() ==> (#[trigger] old(self).eras@[i])@.finalized.is_prefix_of(final(self).eras@[i]@.finalized) && final(self).eras@[i].era_id == old(self).eras@[i].era_id,
            (block_header.era_id.0 == u64::MAX || era_index(
                old(self).eras@,
                EraId((block_header.era_id.0 + 1) as u64),
            ) >= 0 ==> *final(self) == *old(self) && r@.len() == 0),
            (block_header.era_id.0 < u64::MAX && era_index(
                old(self).eras@,
                EraId((block_header.era_id.0 + 1) as u64),
            ) < 0 ==> final(self).eras@.len() == old(self).eras@.len() + 1 && final(self).eras@.last().era_id == EraId((block_header.era_id.0 + 1) as u64) && final(self).eras@.last()@.state is Active && final(self).eras@.last()@.weights
                == validator_weights@ && final(self).eras@.last()@.finalized.len() == 0
                && crate::messages::has_timer_request(
                r@,
                EraId((block_header.era_id.0 + 1) as u64),
            )),
            forall|i: int|
                0 <= i < final(self).evidence@.len() ==> old(self).evidence@.contains(
                    #[trigger] final(self).evidence@[i],
                ),
            forall|i: int|
                0 <= i < old(self).evidence@.len() && (#[trigger] old(self).evidence@[i]).era_id.0
                    + final(self).config.bonded_eras >= final(self).current_era.0 ==> final(self).evidence@.contains(old(self).evidence@[i]),
    {
        proof {
            assert forall|i: int|
                0 <= i < old(self).evidence@.len() implies old(self).evidence@.contains(
                #[trigger] old(self).evidence@[i],
            ) by {}
        }
        if block_header.era_id.0 == u64::MAX {
            return Vec::new();
        }
        let new_id = EraId(block_header.era_id.0 + 1);
        match self.find_era(new_id) {
            Some(_) => {
                return Vec::new();
            },
            None => {},
        }
        proof {
            lemma_era_index(old(self).eras@, new_id);
        }
        let era = Era::new(new_id, validator_weights, self.config.era_length, self.our_key);
        self.eras.push(era);
        if new_id.0 > self.current_era.0 {
            self.current_era = new_id;
        }
        let ghost mid = *self;
        proof {
            assert(forall|t: int|
                0 <= t < old(self).eras@.len() ==> mid.eras@[t] == (#[trigger] old(self).eras@[t]));
            assert(mid.eras@.last() == era);
        }
        if self.current_era.0 > self.config.bonded_eras {
            let cutoff = self.current_era.0 - self.config.bonded_eras;
            let n = self.eras.len();
            let n_old = n - 1;
            let mut i: usize = 0;
            while i < n_old
                invariant
                    n == self.eras@.len(),
                    n_old == n - 1,
                    i <= n_old,
                    n == mid.eras@.len(),
                    self.current_era == mid.current_era,
                    self.config == mid.config,
                    self.our_key == mid.our_key,
                    self.evidence@ == mid.evidence@,
                    cutoff == mid.current_era.0 - mid.config.bonded_eras,
                    forall|t: int| i <= t < n ==> (#[trigger] self.eras@[t]) == mid.eras@[t],
                    forall|t: int|
                        0 <= t < i ==> (#[trigger] self.eras@[t]) == mid.eras@[t]
                            || self.eras@[t]@ == (EraModel {
                            state: EraState::Retired,
                            ..mid.eras@[t]@
                        }),
                    self.eras@[n - 1] == mid.eras@[n - 1],
                    forall|t: int|
                        0 <= t < n ==> (#[trigger] self.eras@[t]).era_id == mid.eras@[t].era_id
                            && self.eras@[t]@.finalized == mid.eras@[t]@.finalized
                            && self.eras@[t]@.faulty == mid.eras@[t]@.faulty,
                    forall|t: int| 0 <= t < n ==> (#[trigger] self.eras@[t]).wf(),
                decreases n_old - i,
            {
                if self.eras[i].era_id.0 < cutoff {
                    self.eras[i].state = EraState::Retired;
                }
                i = i + 1;
            }
            let m = self.evidence.len();
            let mut kept: Vec<EvidenceEntry> = Vec::new();
            let mut j: usize = 0;
            while j < m
                invariant
                    m == self.evidence@.len(),
                    j <= m,
                    self.evidence@ == mid.evidence@,
                    forall|t: int|
                        0 <= t < kept@.len() ==> self.evidence@.contains(#[trigger] kept@[t]) && (
                        #[trigger] kept@[t]).era_id.0 >= cutoff,
                    forall|t: int|
                        0 <= t < j && (#[trigger] self.evidence@[t]).era_id.0 >= cutoff
                            ==> kept@.contains(self.evidence@[t]),
                decreases m - j,
            {
                let e = self.evidence[j];
                let ghost kept0 = kept@;
                if e.era_id.0 >= cutoff {
                    kept.push(e);
                    proof {
                        assert(self.evidence@[j as int] == e);
                        assert(kept@[kept@.len() - 1] == e);
                        assert forall|t: int|
                            0 <= t < j + 1 && (#[trigger] self.evidence@[t]).era_id.0
                                >= cutoff implies kept@.contains(self.evidence@[t]) by {
                            if t < j {
                                let w = choose|w: int|
                                    0 <= w < kept0.len() && kept0[w] == self.evidence@[t];
                                assert(kept@[w] == self.evidence@[t]);
                            } else {
                                assert(kept@[kept@.len() - 1] == self.evidence@[t]);
                            }
                        }
                    }
                }
                j = j + 1;
            }
            self.evidence = kept;
        }
        let mut r: Vec<Effect> = Vec::new();
        r.push(
            Effect::ScheduleTimer {
                era_id: new_id,
                timestamp: Timestamp(
                    block_header.timestamp.0.saturating_add(self.config.timer_interval),
                ),
            },
        );
        proof {
            assert(r@[0] matches Effect::ScheduleTimer { era_id: e2, timestamp: _ } && e2
                == new_id);
            assert(crate::messages::has_timer_request(r@, new_id));
            // Identifiers are unchanged and unique: the new era's identifier
            // occurs in no older instance.
            assert forall|a: int, b: int|
                0 <= a < b < self.eras@.len() implies (#[trigger] self.eras@[a]).era_id != (
            #[trigger] self.eras@[b]).era_id by {
                if b < old(self).eras@.len() {
                } else {
                    assert(self.eras@[b].era_id == new_id);
                    assert(old(self).eras@[a].era_id != new_id);
                }
            }
            // Every kept evidence record stems from the old index.
            assert forall|i: int|
                0 <= i < self.evidence@.len() implies entry_wf(#[trigger] self.evidence@[i])
                    && self.evidence@[i].era_id.0 <= self.current_era.0 by {
                let w = choose|w: int|
                    0 <= w < old(self).evidence@.len() && old(self).evidence@[w]
                        == self.evidence@[i];
                assert(entry_wf(old(self).evidence@[w]));
            }
            // Every fault of an era inside the window is still listed.
            assert forall|i: int, k: PublicKey|
                0 <= i < self.eras@.len() && in_window(*self, self.eras@[i].era_id) && (
                #[trigger] self.eras@[i]@.faulty.contains(k)) implies evidence_listed(
                self.evidence@,
                self.eras@[i].era_id,
                k,
            ) by {
                if i < old(self).eras@.len() {
                    let e = self.eras@[i].era_id;
                    assert(self.eras@[i]@.faulty == old(self).eras@[i]@.faulty);
                    assert(e == old(self).eras@[i].era_id);
                    assert(in_window(*old(self), e));
                    assert(evidence_listed(old(self).evidence@, e, k));
                    let t = choose|t: int|
                        0 <= t < old(self).evidence@.len() && (#[trigger] old(self).evidence@[t]).era_id == e && old(self).evidence@[t].pub_key == k;
                    assert(self.evidence@.contains(old(self).evidence@[t]));
                    let w = choose|w: int|
                        0 <= w < self.evidence@.len() && self.evidence@[w] == old(self).evidence@[t];
                    assert(evidence_listed(self.evidence@, e, k));
                } else {
                    assert(self.eras@[i]@.faulty.len() == 0);
                }
            }
            assert forall|i: int|
                0 <= i < old(self).eras@.len() implies (#[trigger] old(self).eras@[i])@.finalized.is_prefix_of(self.eras@[i]@.finalized) by {
                assert(old(self).eras@[i]@.finalized == self.eras@[i]@.finalized);
                assert(old(self).eras@[i]@.finalized =~= self.eras@[i]@.finalized.take(
                    old(self).eras@[i]@.finalized.len() as int,
                ));
            }
        }
        r
    }
}


/// A sequence is a prefix of itself.
pub proof fn lemma_seq_prefix_refl<T>(s: Seq<T>)
    ensures
        s.is_prefix_of(s),
{
    assert(s =~= s.take(s.len() as int));
}

impl EraSupervisor {
    /// Dispatches one consensus component event to the responsible handler.
    /// Every event preserves each era's already finalized prefix; events
    /// scoped to one era never change another era's instance; and only the
    /// creation of a new era can drop (out-of-window) evidence. A failed or
    /// still-pending validators lookup is fatal for node progress: it is
    /// escalated as a `FatalError` effect, never silently swallowed.
    pub fn handle_event(&mut self, event: Event) -> (r: Vec<Effect>)
        requires
            old(self).wf(),
            event_wf(event),
        ensures
            final(self).wf(),
            forall|i: int|
                0 <= i < old(self).eras@.len() ==> i < final(self).eras@.len() && (#[trigger] old(self).eras@[i])@.finalized.is_prefix_of(final(self).eras@[i]@.finalized) && final(self).eras@[i].era_id == old(self).eras@[i].era_id,
            (!(event matches Event::GetValidatorsResponse { .. }) ==> old(self).evidence@.is_prefix_of(final(self).evidence@) && final(self).eras@.len() == old(self).eras@.len()),
            (event matches Event::Timer { era_id: e, timestamp: _ } ==> forall|i: int|
                0 <= i < old(self).eras@.len() && (#[trigger] old(self).eras@[i]).era_id != e
                    ==> final(self).eras@[i] == old(self).eras@[i]),
            (event matches Event::NewProtoBlock { era_id: e, proto_block: _, block_context: _ }
                ==> forall|i: int|
                0 <= i < old(self).eras@.len() && (#[trigger] old(self).eras@[i]).era_id != e
                    ==> final(self).eras@[i] == old(self).eras@[i]),
            (event matches Event::AcceptProtoBlock { era_id: e, proto_block: _ } ==> forall|i: int|
                0 <= i < old(self).eras@.len() && (#[trigger] old(self).eras@[i]).era_id != e
                    ==> final(self).eras@[i] == old(self).eras@[i]),
            (event matches Event::InvalidProtoBlock { era_id: e, sender: _, proto_block: _ }
                ==> forall|i: int|
                0 <= i < old(self).eras@.len() && (#[trigger] old(self).eras@[i]).era_id != e
                    ==> final(self).eras@[i] == old(self).eras@[i]),
            (event matches Event::MessageReceived {
                sender: _,
                msg: ConsensusMessage::Protocol { era_id: e, payload: _ },
            } ==> forall|i: int|
                0 <= i < old(self).eras@.len() && (#[trigger] old(self).eras@[i]).era_id != e
                    ==> final(self).eras@[i] == old(self).eras@[i]),
            (event matches Event::MessageReceived {
                sender: _,
                msg: ConsensusMessage::EvidenceRequest { era_id: _, pub_key: _ },
            } ==> *final(self) == *old(self)),
            (event matches Event::LinearChainBlock { block_header: _ } ==> *final(self) == *old(self)),
            (event matches Event::GetValidatorsResponse { block_header: h, result: res } ==> (!(res
                matches GetValidatorsResult::Success { weights: _ }) ==> *final(self) == *old(self)
                && r@.len() == 1 && r@[0] == (Effect::FatalError { era_id: h.era_id }))),
            (event matches Event::Timer { era_id: e, timestamp: _ } ==> (era_index(
                old(self).eras@,
                e,
            ) < 0 ==> *final(self) == *old(self) && r@.len() == 0) && (era_index(old(self).eras@, e)
                >= 0 ==> final(self).eras@[era_index(old(self).eras@, e)]@ == retired_view(
                old(self).eras@[era_index(old(self).eras@, e)]@.tick(),
            )) && (era_index(old(self).eras@, e) >= 0 && !(old(self).eras@[era_index(
                old(self).eras@,
                e,
            )]@.state is Active) ==> r@.len() == 0)),
            (event matches Event::MessageReceived {
                sender: _,
                msg: ConsensusMessage::Protocol { era_id: e, payload: p },
            } ==> (era_index(old(self).eras@, e) < 0 ==> *final(self) == *old(self) && r@.len()
                == 0) && (era_index(old(self).eras@, e) >= 0 ==> final(self).eras@[era_index(
                old(self).eras@,
                e,
            )]@ == retired_view(
                old(self).eras@[era_index(old(self).eras@, e)]@.handle_payload(p@),
            ))),
            (event matches Event::NewProtoBlock { era_id: e, proto_block: pb, block_context: bc }
                ==> (era_index(old(self).eras@, e) < 0 ==> *final(self) == *old(self) && r@.len()
                == 0) && (era_index(old(self).eras@, e) >= 0 ==> final(self).eras@[era_index(
                old(self).eras@,
                e,
            )]@ == retired_view(old(self).eras@[era_index(old(self).eras@, e)]@.propose(pb, bc))
                && ((r@.len() == 1) <==> (old(self).eras@[era_index(old(self).eras@, e)]@.state
                is Active && !crate::era::has_candidate(
                old(self).eras@[era_index(old(self).eras@, e)]@.candidates,
                pb,
            ))) && r@.len() <= 1 && (r@.len() == 1 ==> r@[0] == (Effect::RequestValidation {
                era_id: e,
                proto_block: pb,
            })))),
            (event matches Event::AcceptProtoBlock { era_id: e, proto_block: pb } ==> (era_index(
                old(self).eras@,
                e,
            ) < 0 ==> *final(self) == *old(self) && r@.len() == 0) && (era_index(old(self).eras@, e)
                >= 0 ==> final(self).eras@[era_index(old(self).eras@, e)]@ == retired_view(
                old(self).eras@[era_index(old(self).eras@, e)]@.accept(pb),
            ))),
            (event matches Event::InvalidProtoBlock { era_id: e, sender: n, proto_block: pb } ==> (
            era_index(old(self).eras@, e) < 0 ==> *final(self) == *old(self) && r@.len() == 0) && (
            era_index(old(self).eras@, e) >= 0 ==> final(self).eras@[era_index(old(self).eras@, e)]@
                == retired_view(old(self).eras@[era_index(old(self).eras@, e)]@.reject(n, pb)))),
            (event matches Event::LinearChainBlock { block_header: h } ==> (h.switch_block
                ==> r@.len() == 1 && r@[0] == (Effect::RequestValidators { block_header: h })) && (
            !h.switch_block ==> r@.len() == 0)),
    {
        proof {
            assert forall|i: int|
                0 <= i < old(self).eras@.len() implies (#[trigger] old(self).eras@[i])@.finalized.is_prefix_of(old(self).eras@[i]@.finalized) by {
                lemma_seq_prefix_refl(old(self).eras@[i]@.finalized);
            }
            assert(old(self).evidence@.is_prefix_of(old(self).evidence@)) by {
                lemma_seq_prefix_refl(old(self).evidence@);
            }
        }
        match event {
            Event::Timer { era_id, timestamp } => self.handle_timer(era_id, timestamp),
            Event::MessageReceived { sender, msg } => self.handle_message(sender, msg),
            Event::NewProtoBlock { era_id, proto_block, block_context } => self
                .handle_new_proto_block(era_id, proto_block, block_context),
            Event::AcceptProtoBlock { era_id, proto_block } => self.handle_accept_proto_block(
                era_id,
                proto_block,
            ),
            Event::InvalidProtoBlock { era_id, sender, proto_block } => self
                .handle_invalid_proto_block(era_id, sender, proto_block),
            Event::LinearChainBlock { block_header } => self.handle_linear_chain_block(
                block_header,
            ),
            Event::GetValidatorsResponse { block_header, result } => match result {
                GetValidatorsResult::Success { weights } => self.handle_get_validators_response(
                    block_header,
                    weights,
                ),
                GetValidatorsResult::NotYetAvailable => {
                    let mut r: Vec<Effect> = Vec::new();
                    r.push(Effect::FatalError { era_id: block_header.era_id });
                    r
                },
                GetValidatorsResult::Failure => {
                    let mut r: Vec<Effect> = Vec::new();
                    r.push(Effect::FatalError { era_id: block_header.era_id });
                    r
                },
            },
        }
    }
}

/// Safety: once a proto-block stands at a position of an era's finalized
/// sequence, it stands there forever. Every event handler guarantees that
/// the old finalized sequence is a prefix of the new one, and a prefix
/// never disagrees on a position it covers, regardless of message delivery
/// order or duplication.
pub proof fn lemma_finalized_position_permanent(pre: Seq<ProtoBlock>, post: Seq<ProtoBlock>, k: int)
    requires
        pre.is_prefix_of(post),
        0 <= k < pre.len(),
    ensures
        post[k] == pre[k],
{
    assert(pre =~= post.take(pre.len() as int));
    assert(post.take(pre.len() as int)[k] == post[k]);
}

/// Evidence retention: the cross-era index lists every detected
/// equivocator of every era within the bonded window, whether or not that
/// era's instance is still active — so an evidence request for a retired
/// era is still answered from the index.
pub proof fn lemma_evidence_index_covers_faults(s: EraSupervisor, i: int, k: PublicKey)
    requires
        s.wf(),
        0 <= i < s.eras@.len(),
        in_window(s, s.eras@[i].era_id),
        s.eras@[i]@.faulty.contains(k),
    ensures
        evidence_listed(s.evidence@, s.eras@[i].era_id, k),
{
}

/// Routing idempotence, lifted over the supervisor's retirement step:
/// delivering one protocol payload twice leaves the era's instance in the
/// same state as delivering it once.
pub proof fn lemma_supervised_payload_idempotent(m: EraModel, bytes: Seq<u8>)
    ensures
        retired_view(retired_view(m.handle_payload(bytes)).handle_payload(bytes)) == retired_view(
            m.handle_payload(bytes),
        ),
{
    crate::era::lemma_payload_idempotent(m, bytes);
    let m1 = m.handle_payload(bytes);
    let r1 = retired_view(m1);
    if r1.state is Retired {
        assert(r1.handle_payload(bytes) == r1) by {
            match crate::era::parse_vote(bytes) {
                None => {},
                Some(v) => {
                    assert(r1.record_vote(v) == r1);
                },
            }
        }
    } else {
        assert(r1 == m1);
    }
}

} // verus!
