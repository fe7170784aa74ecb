use host::conformance::{ConformanceMetadata, RoundError, SerializationError, WireMetadata};
use host::filter::{FilterError, FilterSnapshot, MembershipFilter};
use host::fingerprint::Fingerprint;
use host::rules::{CardinalityRule, ConformanceResult, PrecedenceRule, Rule};
use host::wire::{rules_from_wire, rules_to_wire, WireRule};

const A: Fingerprint = Fingerprint { words: [1, 2, 3, 4, 5, 6, 7, 8] };
const B: Fingerprint = Fingerprint { words: [8, 7, 6, 5, 4, 3, 2, 1] };
const C: Fingerprint = Fingerprint { words: [9, 9, 9, 9, 9, 9, 9, 9] };

fn precedence(f: Fingerprint) -> Rule {
    Rule::Precedence(PrecedenceRule { preceding: f })
}

fn cardinality(f: Fingerprint, min: u32, max: u32) -> Rule {
    Rule::Cardinality(CardinalityRule { fingerprint: f, min, max })
}

fn snapshot(m: &ConformanceMetadata) -> FilterSnapshot {
    m.filter.to_snapshot()
}

#[test]
fn initial_metadata_has_no_history() {
    let m = ConformanceMetadata::initial(A, vec![], 100, 64).unwrap();
    assert_eq!(m.previous_image_id, None);
    assert_eq!(m.current_image_id, A);
    assert!(m.rules.is_empty());
    assert_eq!(m.filter.len(), 0);
    assert_eq!(m.filter.capacity(), 100);
    assert_eq!(m.filter.fingerprint_bits(), 64);
    assert!(m.is_well_formed());
    assert_eq!(
        ConformanceMetadata::initial(A, vec![], 100, 3).err(),
        Some(FilterError::Configuration)
    );
}

#[test]
fn first_round_without_rules_advances() {
    let mut m = ConformanceMetadata::initial(A, vec![], 100, 64).unwrap();
    assert_eq!(m.check(), ConformanceResult::Accepted);
    assert_eq!(m.complete_round(true, B, vec![precedence(A)]), Ok(()));
    assert_eq!(m.previous_image_id, Some(A));
    assert_eq!(m.current_image_id, B);
    assert_eq!(m.rules, vec![precedence(A)]);
    assert_eq!(m.filter.len(), 1);
    assert!(m.filter.contains(&A));
    assert!(!m.filter.contains(&B));
    assert!(m.is_well_formed());
}

#[test]
fn second_round_may_require_the_first() {
    let mut m = ConformanceMetadata::initial(A, vec![], 100, 64).unwrap();
    m.complete_round(true, B, vec![precedence(A), cardinality(A, 1, 1)]).unwrap();
    assert_eq!(m.check(), ConformanceResult::Accepted);
    assert_eq!(m.complete_round(true, C, vec![]), Ok(()));
    assert_eq!(m.previous_image_id, Some(B));
    assert_eq!(m.current_image_id, C);
    assert_eq!(m.filter.len(), 2);
    assert!(m.filter.contains(&A));
    assert!(m.filter.contains(&B));
}

#[test]
fn second_round_requiring_an_unproven_step_is_rejected() {
    let mut m = ConformanceMetadata::initial(A, vec![], 100, 64).unwrap();
    m.complete_round(true, B, vec![precedence(C)]).unwrap();
    let before = snapshot(&m);
    let violation = ConformanceResult::PrecedenceViolation { expected: C, current: B };
    assert_eq!(m.check(), violation);
    assert_eq!(m.complete_round(true, C, vec![]), Err(RoundError::Rejected(violation)));
    assert_eq!(m.previous_image_id, Some(A));
    assert_eq!(m.current_image_id, B);
    assert_eq!(m.rules, vec![precedence(C)]);
    assert_eq!(m.filter.len(), 1);
    assert!(!m.filter.contains(&B));
    assert_eq!(snapshot(&m), before);
}

#[test]
fn failed_engine_leaves_the_round_in_place() {
    let mut m = ConformanceMetadata::initial(A, vec![cardinality(A, 0, 0)], 100, 64).unwrap();
    let before = snapshot(&m);
    assert_eq!(m.complete_round(false, B, vec![]), Err(RoundError::EngineFailure));
    assert_eq!(m.previous_image_id, None);
    assert_eq!(m.current_image_id, A);
    assert_eq!(m.rules, vec![cardinality(A, 0, 0)]);
    assert_eq!(snapshot(&m), before);
    assert_eq!(m.complete_round(true, B, vec![]), Ok(()));
    assert_eq!(m.previous_image_id, Some(A));
}

#[test]
fn rejection_comes_before_engine_failure() {
    let mut m = ConformanceMetadata::initial(A, vec![precedence(B)], 100, 64).unwrap();
    let violation = ConformanceResult::PrecedenceViolation { expected: B, current: A };
    assert_eq!(m.complete_round(false, B, vec![]), Err(RoundError::Rejected(violation)));
    assert_eq!(m.complete_round(true, B, vec![]), Err(RoundError::Rejected(violation)));
    assert_eq!(m.filter.len(), 0);
}

#[test]
fn full_filter_stops_the_chain() {
    let mut filter = MembershipFilter::new(5, 32).unwrap();
    let capacity = filter.capacity();
    assert_eq!(capacity, 5);
    for n in 0..capacity {
        filter.insert(&Fingerprint::new([n as u32, 0, 0, 0, 0, 0, 0, 1])).unwrap();
    }
    filter_is_full(&filter);
    let mut m = ConformanceMetadata {
        previous_image_id: None,
        current_image_id: A,
        rules: vec![],
        filter,
    };
    let before = snapshot(&m);
    assert_eq!(m.complete_round(true, B, vec![]), Err(RoundError::FilterOverflow));
    assert_eq!(m.previous_image_id, None);
    assert_eq!(m.current_image_id, A);
    assert_eq!(snapshot(&m), before);
}

fn filter_is_full(filter: &MembershipFilter) {
    assert_eq!(filter.len(), filter.capacity());
}

#[test]
fn repeated_steps_are_counted() {
    let rules = vec![cardinality(A, 0, 1)];
    let mut m = ConformanceMetadata::initial(A, rules.clone(), 100, 64).unwrap();
    assert_eq!(m.complete_round(true, A, rules.clone()), Ok(()));
    assert_eq!(m.complete_round(true, A, rules.clone()), Ok(()));
    assert_eq!(m.filter.approximate_count(&A), 2);
    let violation =
        ConformanceResult::CardinalityViolation { fingerprint: A, actual: 2, min: 0, max: 1 };
    assert_eq!(m.complete_round(true, A, rules.clone()), Err(RoundError::Rejected(violation)));
    assert_eq!(m.filter.approximate_count(&A), 2);
}

#[test]
fn metadata_round_trips_through_its_wire_form() {
    let mut m = ConformanceMetadata::initial(A, vec![], 100, 64).unwrap();
    m.complete_round(true, B, vec![]).unwrap();
    m.complete_round(true, C, vec![precedence(A), cardinality(B, 1, 2)]).unwrap();
    let wire = m.serialize().unwrap();
    assert_eq!(wire.previous_image_id, Some(vec![8, 7, 6, 5, 4, 3, 2, 1]));
    assert_eq!(wire.current_image_id, vec![9, 9, 9, 9, 9, 9, 9, 9]);
    assert_eq!(
        wire.rules,
        vec![
            WireRule::Precedence { preceding: vec![1, 2, 3, 4, 5, 6, 7, 8] },
            WireRule::Cardinality { fingerprint: vec![8, 7, 6, 5, 4, 3, 2, 1], min: 1, max: 2 },
        ]
    );
    assert_eq!(wire.filter, snapshot(&m));
    assert_eq!(wire.filter.entries.len(), 2);
    let back = ConformanceMetadata::deserialize(&wire).unwrap();
    assert_eq!(back.previous_image_id, m.previous_image_id);
    assert_eq!(back.current_image_id, m.current_image_id);
    assert_eq!(back.rules, m.rules);
    for f in [A, B, C] {
        assert_eq!(back.filter.contains(&f), m.filter.contains(&f));
        assert_eq!(back.filter.approximate_count(&f), m.filter.approximate_count(&f));
    }
    assert!(back.filter.contains(&A));
    assert!(back.filter.contains(&B));
    assert_eq!(back.check(), m.check());
    assert_eq!(back.serialize().unwrap(), wire);
}

#[test]
fn initial_metadata_round_trips() {
    let m = ConformanceMetadata::initial(A, vec![cardinality(A, 0, 0)], 100, 64).unwrap();
    let wire = m.serialize().unwrap();
    assert_eq!(wire.previous_image_id, None);
    let back = ConformanceMetadata::deserialize(&wire).unwrap();
    assert_eq!(back.previous_image_id, None);
    assert_eq!(back.current_image_id, A);
    assert_eq!(back.rules, vec![cardinality(A, 0, 0)]);
    assert_eq!(back.filter.len(), 0);
}

fn sample_wire() -> WireMetadata {
    let mut m = ConformanceMetadata::initial(A, vec![], 100, 64).unwrap();
    m.complete_round(true, B, vec![precedence(A)]).unwrap();
    m.serialize().unwrap()
}

#[test]
fn misshapen_fingerprints_are_refused() {
    let mut wire = sample_wire();
    wire.current_image_id = vec![1, 2, 3, 4, 5, 6, 7];
    assert_eq!(
        ConformanceMetadata::deserialize(&wire).err(),
        Some(SerializationError::FingerprintShape)
    );
    let mut wire = sample_wire();
    wire.previous_image_id = Some(vec![1, 2, 3, 4, 5, 6, 7, 8, 9]);
    assert_eq!(
        ConformanceMetadata::deserialize(&wire).err(),
        Some(SerializationError::FingerprintShape)
    );
    let mut wire = sample_wire();
    wire.rules.push(WireRule::Cardinality { fingerprint: vec![], min: 0, max: 0 });
    assert_eq!(
        ConformanceMetadata::deserialize(&wire).err(),
        Some(SerializationError::FingerprintShape)
    );
}

#[test]
fn unreadable_snapshot_is_refused() {
    let mut wire = sample_wire();
    wire.filter.entries = vec![9, 3];
    assert_eq!(
        ConformanceMetadata::deserialize(&wire).err(),
        Some(SerializationError::FilterSnapshot)
    );
    wire.current_image_id = vec![];
    assert_eq!(
        ConformanceMetadata::deserialize(&wire).err(),
        Some(SerializationError::FingerprintShape)
    );
}

#[test]
fn history_without_its_previous_step_is_refused() {
    let mut wire = sample_wire();
    wire.previous_image_id = Some(C.to_words());
    assert_eq!(ConformanceMetadata::deserialize(&wire).err(), Some(SerializationError::History));
    wire.previous_image_id = None;
    assert!(ConformanceMetadata::deserialize(&wire).is_ok());
    let m = ConformanceMetadata {
        previous_image_id: Some(B),
        current_image_id: A,
        rules: vec![],
        filter: MembershipFilter::new(100, 64).unwrap(),
    };
    assert!(!m.is_well_formed());
    assert_eq!(m.serialize().err(), Some(SerializationError::History));
}

#[test]
fn rules_convert_to_and_from_wire() {
    let rules = vec![precedence(A), cardinality(B, 3, 7)];
    let wire = rules_to_wire(&rules);
    assert_eq!(
        wire,
        vec![
            WireRule::Precedence { preceding: A.to_words() },
            WireRule::Cardinality { fingerprint: B.to_words(), min: 3, max: 7 },
        ]
    );
    assert_eq!(rules_from_wire(&wire), Some(rules));
    assert_eq!(rules_from_wire(&[]), Some(vec![]));
    assert_eq!(Rule::from_wire(&WireRule::Precedence { preceding: vec![1, 2] }), None);
    assert_eq!(
        rules_from_wire(&[
            WireRule::Precedence { preceding: A.to_words() },
            WireRule::Precedence { preceding: vec![0; 9] },
        ]),
        None
    );
    assert_eq!(precedence(A).to_wire(), WireRule::Precedence { preceding: A.to_words() });
}
