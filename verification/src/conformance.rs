//! Conformance metadata: what binds a round of a chain to the step before
//! it, to its rules and to the record of what the chain has proven; and the
//! transition from one round to the next.

use vstd::prelude::*;
use vstd::multiset::Multiset;
use crate::filter::{
    law_snapshot_is_unique, makeable, FilterError, FilterSnapshot, FilterSnapshotView,
    MembershipFilter, MAX_CAPACITY,
};
use crate::fingerprint::{lemma_fingerprint_view_injective, Fingerprint};
use crate::rules::{evaluate, evaluation, ConformanceResult, Rule};
use crate::wire::{
    all_well_shaped, lemma_wire_rules_injective, option_words, rules_from_wire,
    rules_to_wire, wire_option, wire_rules, wire_views, WireRule, WireRuleView,
};

verus! {

/// The state of a chain at one round.
pub struct ConformanceMetadata {
    /// The step whose receipt this round consumes; absent in the first round.
    pub previous_image_id: Option<Fingerprint>,
    /// The step that this round proves.
    pub current_image_id: Fingerprint,
    /// The rules that the step must satisfy, in the order in which they are checked.
    pub rules: Vec<Rule>,
    /// The record of the steps proven so far.
    pub filter: MembershipFilter,
}

/// Conformance metadata as it travels: fingerprints as word lists, the
/// filter as its snapshot.
#[derive(Clone, Debug, PartialEq, Eq)]
pub struct WireMetadata {
    pub previous_image_id: Option<Vec<u32>>,
    pub current_image_id: Vec<u32>,
    pub rules: Vec<WireRule>,
    pub filter: FilterSnapshot,
}

/// The contents of wire metadata.
pub struct WireMetadataView {
    pub previous_image_id: Option<Seq<u32>>,
    pub current_image_id: Seq<u32>,
    pub rules: Seq<WireRuleView>,
    pub filter: FilterSnapshotView,
}

impl View for WireMetadata {
    type V = WireMetadataView;

    open spec fn view(&self) -> WireMetadataView {
        WireMetadataView {
            previous_image_id: option_words(self.previous_image_id),
            current_image_id: self.current_image_id@,
            rules: wire_views(self.rules@),
            filter: self.filter@,
        }
    }
}

/// Why metadata could not be written or read.
#[derive(Clone, Copy, Debug, PartialEq, Eq, Structural)]
pub enum SerializationError {
    /// A fingerprint does not have eight words.
    FingerprintShape,
    /// The snapshot of the filter is not one that a filter writes.
    FilterSnapshot,
    /// The metadata names a previous step that its filter does not report.
    History,
}

/// Why a round did not advance the chain.
#[derive(Clone, Copy, Debug, PartialEq, Eq)]
pub enum RoundError {
    /// A rule is violated; the outcome names the first such rule.
    Rejected(ConformanceResult),
    /// The proving engine produced no receipt.
    EngineFailure,
    /// The filter has no room to record the step.
    FilterOverflow,
}

impl WireMetadataView {
    /// Every fingerprint of the metadata has eight words.
    pub open spec fn well_shaped(self) -> bool {
        &&& self.current_image_id.len() == 8
        &&& (self.previous_image_id matches Some(p) ==> p.len() == 8)
        &&& all_well_shaped(self.rules)
    }

    /// The fault for which reading the metadata is refused, if any. Shapes
    /// are checked first, then the snapshot, then the history.
    pub open spec fn fault(self) -> Option<SerializationError> {
        if !self.well_shaped() {
            Some(SerializationError::FingerprintShape)
        } else if !self.filter.acceptable() {
            Some(SerializationError::FilterSnapshot)
        } else if self.previous_image_id matches Some(p) && self.filter.record().count(p) == 0 {
            Some(SerializationError::History)
        } else {
            None
        }
    }
}

impl ConformanceMetadata {
    /// The filter reports the step that the round consumes: that step was
    /// recorded when its own round completed.
    pub open spec fn wf(&self) -> bool {
        self.previous_image_id matches Some(p) ==> self.filter.reports(p@)
    }

    /// The state at the start of a chain: no previous step, nothing recorded.
    pub open spec fn is_initial(&self) -> bool {
        self.previous_image_id is None && self.filter.stored() == 0
            && self.filter.counts().entries == Multiset::<u64>::empty()
    }

    /// What the rule engine answers for this round.
    pub open spec fn verdict(&self) -> ConformanceResult {
        evaluation(self.rules@, self.filter.counts(), self.current_image_id)
    }

    /// Why the round does not advance, if it does not: a violated rule comes
    /// before an engine failure, and that before a full filter.
    pub open spec fn round_fault(&self, receipt_produced: bool) -> Option<RoundError> {
        if self.verdict() !is Accepted {
            Some(RoundError::Rejected(self.verdict()))
        } else if !receipt_produced {
            Some(RoundError::EngineFailure)
        } else if self.filter.stored() >= self.filter.limit() {
            Some(RoundError::FilterOverflow)
        } else {
            None
        }
    }

    /// `w` is what `serialize` writes for this metadata.
    pub open spec fn serializes_to(&self, w: WireMetadataView) -> bool {
        &&& self.wf()
        &&& w.previous_image_id == wire_option(self.previous_image_id)
        &&& w.current_image_id == self.current_image_id@
        &&& w.rules == wire_rules(self.rules@)
        &&& self.filter.written_as(w.filter)
    }

    /// This metadata is what `deserialize` reads from `w`.
    pub open spec fn deserializes_from(&self, w: WireMetadataView) -> bool {
        &&& self.wf()
        &&& w.previous_image_id == wire_option(self.previous_image_id)
        &&& w.current_image_id == self.current_image_id@
        &&& w.rules == wire_rules(self.rules@)
        &&& self.filter.written_as(w.filter)
    }

    /// The metadata of a first round, with an empty filter for `capacity`
    /// steps. It is made exactly where the filter can be made.
    pub fn initial(
        current: Fingerprint,
        rules: Vec<Rule>,
        capacity: u64,
        fingerprint_bits: u8,
    ) -> (r: Result<ConformanceMetadata, FilterError>)
        ensures
            r is Ok <==> capacity <= MAX_CAPACITY && makeable(capacity, fingerprint_bits),
            r matches Ok(m) ==> m.is_initial() && m.wf() && m.current_image_id == current
                && m.rules == rules && m.filter.limit() == capacity && m.filter.counts().bits
                == fingerprint_bits,
            r matches Err(e) ==> e == FilterError::Configuration,
    {
        match MembershipFilter::new(capacity, fingerprint_bits) {
            Ok(filter) => Ok(
                ConformanceMetadata {
                    previous_image_id: None,
                    current_image_id: current,
                    rules,
                    filter,
                },
            ),
            Err(e) => Err(e),
        }
    }

    /// Checks whether the metadata is well formed.
    pub fn is_well_formed(&self) -> (r: bool)
        ensures
            r == self.wf(),
    {
        match &self.previous_image_id {
            Some(p) => self.filter.contains(p),
            None => true,
        }
    }

    /// Runs the rule engine on this round. Nothing is changed.
    pub fn check(&self) -> (r: ConformanceResult)
        ensures
            r == self.verdict(),
    {
        evaluate(self.rules.as_slice(), &self.filter, &self.current_image_id)
    }

    /// Moves the chain to its next round, once the engine has answered for
    /// the current one. The chain advances only if the rules accept the
    /// current step, the engine produced a receipt and the filter can record
    /// the step; then the step is recorded and becomes the previous step of
    /// the next round. Otherwise the metadata is left exactly as it was.
    pub fn complete_round(
        &mut self,
        receipt_produced: bool,
        next_current: Fingerprint,
        next_rules: Vec<Rule>,
    ) -> (r: Result<(), RoundError>)
        ensures
            match old(self).round_fault(receipt_produced) {
                Some(e) => r == Err::<(), RoundError>(e),
                None => r is Ok,
            },
            r is Err ==> *final(self) == *old(self),
            r is Ok ==> {
                &&& final(self).previous_image_id == Some(old(self).current_image_id)
                &&& final(self).current_image_id == next_current
                &&& final(self).rules == next_rules
                &&& final(self).filter.stored() == old(self).filter.stored() + 1
                &&& final(self).filter.counts().count(old(self).current_image_id@) == old(
                    self,
                ).filter.counts().count(old(self).current_image_id@) + 1
                &&& final(self).filter.recorded() == old(self).filter.recorded().insert(
                    old(self).current_image_id@,
                )
                &&& final(self).wf()
            },
            old(self).filter.counts().subset_of(final(self).filter.counts()),
    {
        let verdict = evaluate(self.rules.as_slice(), &self.filter, &self.current_image_id);
        match verdict {
            ConformanceResult::Accepted => {},
            _ => {
                return Err(RoundError::Rejected(verdict));
            },
        }
        if !receipt_produced {
            return Err(RoundError::EngineFailure);
        }
        let current = self.current_image_id;
        match self.filter.insert(&current) {
            Ok(()) => {},
            Err(_) => {
                return Err(RoundError::FilterOverflow);
            },
        }
        self.previous_image_id = Some(current);
        self.current_image_id = next_current;
        self.rules = next_rules;
        Ok(())
    }

    /// Writes the metadata in its wire form, with the filter as a snapshot.
    /// Metadata is written exactly where it is well formed.
    pub fn serialize(&self) -> (r: Result<WireMetadata, SerializationError>)
        ensures
            r is Ok <==> self.wf(),
            r matches Ok(w) ==> self.serializes_to(w@) && w@.fault() is None,
            r matches Err(e) ==> e == SerializationError::History,
    {
        if !self.is_well_formed() {
            return Err(SerializationError::History);
        }
        let filter = self.filter.to_snapshot();
        proof {
            lemma_fingerprint_view_injective(self.current_image_id, self.current_image_id);
            lemma_wire_rules_injective(self.rules@, self.rules@);
            if let Some(p) = self.previous_image_id {
                lemma_fingerprint_view_injective(p, p);
            }
        }
        let previous = match &self.previous_image_id {
            Some(p) => Some(p.to_words()),
            None => None,
        };
        Ok(
            WireMetadata {
                previous_image_id: previous,
                current_image_id: self.current_image_id.to_words(),
                rules: rules_to_wire(self.rules.as_slice()),
                filter,
            },
        )
    }

    /// Reads metadata from its wire form. It is refused if a fingerprint is
    /// misshapen, if the snapshot is not one of a filter, or if the filter
    /// read from it does not report the previous step.
    pub fn deserialize(wire: &WireMetadata) -> (r: Result<ConformanceMetadata, SerializationError>)
        ensures
            match wire@.fault() {
                Some(e) => r == Err::<ConformanceMetadata, SerializationError>(e),
                None => r is Ok,
            },
            r matches Ok(m) ==> m.deserializes_from(wire@),
    {
        let current = match Fingerprint::from_words(&wire.current_image_id) {
            Some(f) => f,
            None => {
                return Err(SerializationError::FingerprintShape);
            },
        };
        let previous = match &wire.previous_image_id {
            Some(words) => match Fingerprint::from_words(words) {
                Some(f) => Some(f),
                None => {
                    return Err(SerializationError::FingerprintShape);
                },
            },
            None => None,
        };
        let rules = match rules_from_wire(wire.rules.as_slice()) {
            Some(rules) => rules,
            None => {
                return Err(SerializationError::FingerprintShape);
            },
        };
        let filter = match MembershipFilter::from_snapshot(&wire.filter) {
            Ok(filter) => filter,
            Err(_) => {
                return Err(SerializationError::FilterSnapshot);
            },
        };
        let m = ConformanceMetadata {
            previous_image_id: previous,
            current_image_id: current,
            rules,
            filter,
        };
        if !m.is_well_formed() {
            return Err(SerializationError::History);
        }
        Ok(m)
    }
}

/// Writing metadata and reading it back gives metadata with the same
/// previous and current step, the same rules in the same order, and a filter
/// that has stored the same hashes and so reports every fingerprint exactly
/// as often as the one written. Reading what was written is never refused.
pub proof fn law_serialize_then_deserialize(
    m: ConformanceMetadata,
    w: WireMetadataView,
    back: ConformanceMetadata,
)
    requires
        m.serializes_to(w),
        back.deserializes_from(w),
    ensures
        back.previous_image_id == m.previous_image_id,
        back.current_image_id == m.current_image_id,
        back.rules@ == m.rules@,
        back.filter.counts() == m.filter.counts(),
        back.filter.limit() == m.filter.limit(),
        forall|f: Seq<u32>| back.filter.reports(f) == m.filter.reports(f),
{
    lemma_fingerprint_view_injective(back.current_image_id, m.current_image_id);
    lemma_wire_rules_injective(m.rules@, back.rules@);
    match (m.previous_image_id, back.previous_image_id) {
        (Some(p), Some(q)) => {
            lemma_fingerprint_view_injective(p, q);
            lemma_fingerprint_view_injective(p, p);
        },
        _ => {},
    }
}

/// Metadata that was read from a wire form is written as that wire form
/// again, entry for entry: fingerprints, rules and the snapshot of the filter.
pub proof fn law_deserialize_then_serialize(
    w: WireMetadataView,
    back: ConformanceMetadata,
    again: WireMetadataView,
)
    requires
        back.deserializes_from(w),
        back.serializes_to(again),
    ensures
        again == w,
{
    law_snapshot_is_unique(back.filter, w.filter, again.filter);
}

} // verus!
