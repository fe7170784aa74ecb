use host::composer::{
    compose, composition_outcome, plan_composition, CompositeProofInput, CompositionError,
};
use host::fingerprint::Fingerprint;
use host::receipt::{
    decode_journal, disclosed_output, inspect, is_framed_pair, journal_words, EngineFindings,
    ReceiptReport, Submission,
};
use host::verification::{verification_outcome, verify, MalformedInput, VerificationOutcome};
use host::wire::{Proof, PublicOutput};
use risc0_zkvm::{FakeReceipt, InnerReceipt, Receipt, ReceiptClaim};

const A: Fingerprint = Fingerprint { words: [1, 2, 3, 4, 5, 6, 7, 8] };
const B: Fingerprint = Fingerprint { words: [8, 7, 6, 5, 4, 3, 2, 1] };

fn journal(result: &str, metadata: &str) -> Vec<u8> {
    let words = risc0_zkvm::serde::to_vec(&(result.to_string(), metadata.to_string())).unwrap();
    words.iter().flat_map(|w| w.to_le_bytes()).collect()
}

fn unproven_receipt(image_id: Fingerprint, journal: Vec<u8>) -> Vec<u8> {
    let claim = ReceiptClaim::ok(image_id.words, journal.clone());
    let receipt = Receipt::new(InnerReceipt::Fake(FakeReceipt::new(claim)), journal);
    bincode::serialize(&receipt).unwrap()
}

fn findings(proof: &Proof) -> EngineFindings {
    match bincode::deserialize::<Receipt>(&proof.receipt) {
        Ok(receipt) => EngineFindings {
            readable: true,
            verified: match <[u32; 8]>::try_from(proof.image_id.as_slice()) {
                Ok(id) => receipt.verify(id).is_ok(),
                Err(_) => false,
            },
            journal: receipt.journal.bytes.clone(),
        },
        Err(_) => EngineFindings { readable: false, verified: false, journal: vec![] },
    }
}

fn checked(proof: Proof) -> Submission {
    let findings = findings(&proof);
    Submission { proof, findings }
}

fn verify_with_engine(proof: &Proof) -> Result<VerificationOutcome, MalformedInput> {
    verify(proof, &findings(proof))
}

fn output(result: &str, metadata: &str) -> PublicOutput {
    PublicOutput { result: result.to_string(), metadata: metadata.to_string() }
}

fn good_report(image_id: Fingerprint, result: &str, receipt: &[u8]) -> ReceiptReport {
    ReceiptReport {
        fingerprint: Some(image_id),
        readable: true,
        valid: true,
        output: Some(output(result, "{}")),
        receipt: receipt.to_vec(),
    }
}

#[test]
fn wrong_length_fingerprint_is_malformed() {
    let receipt = unproven_receipt(A, journal("3", "{}"));
    let proof = Proof { image_id: vec![1, 2, 3], receipt };
    assert_eq!(verify_with_engine(&proof), Err(MalformedInput::Fingerprint));
    let proof = Proof { image_id: vec![], receipt: vec![0xff; 10] };
    assert_eq!(verify_with_engine(&proof), Err(MalformedInput::Fingerprint));
}

#[test]
fn undecodable_receipt_is_malformed() {
    let proof = Proof { image_id: A.to_words(), receipt: vec![] };
    assert_eq!(verify_with_engine(&proof), Err(MalformedInput::Receipt));
    let proof = Proof { image_id: A.to_words(), receipt: vec![0xff; 64] };
    assert_eq!(verify_with_engine(&proof), Err(MalformedInput::Receipt));
}

#[test]
fn receipt_without_a_proof_is_invalid_not_an_error() {
    let proof = Proof { image_id: A.to_words(), receipt: unproven_receipt(A, journal("3", "{}")) };
    assert_eq!(verify_with_engine(&proof), Ok(VerificationOutcome { valid: false, decoded_output: None }));
    let other = Proof { image_id: B.to_words(), receipt: unproven_receipt(A, journal("3", "{}")) };
    assert_eq!(verify_with_engine(&other), Ok(VerificationOutcome { valid: false, decoded_output: None }));
}

#[test]
fn flipped_bit_gives_an_outcome() {
    let mut receipt = unproven_receipt(A, journal("three", "{}"));
    let at = receipt.len() - 1;
    let place = receipt.windows(5).position(|w| w == b"three").unwrap();
    receipt[place] ^= 0x01;
    assert!(place < at);
    let proof = Proof { image_id: A.to_words(), receipt };
    let outcome = verify_with_engine(&proof).unwrap();
    assert!(!outcome.valid);
    assert_eq!(outcome.decoded_output, None);
}

#[test]
fn inspection_reports_what_it_finds() {
    let bytes = unproven_receipt(A, journal("3", "{\"l\":0}"));
    let proof = Proof { image_id: A.to_words(), receipt: bytes.clone() };
    let report = inspect(&proof, &findings(&proof));
    assert_eq!(report.fingerprint, Some(A));
    assert!(report.readable);
    assert!(!report.valid);
    assert_eq!(report.output, Some(output("3", "{\"l\":0}")));
    assert_eq!(report.receipt, bytes);

    let unreadable = Proof { image_id: vec![7], receipt: vec![1, 2, 3] };
    let report = inspect(&unreadable, &findings(&unreadable));
    assert_eq!(report.fingerprint, None);
    assert!(!report.readable);
    assert!(!report.valid);
    assert_eq!(report.output, None);
    assert_eq!(report.receipt, vec![1, 2, 3]);
}

#[test]
fn journal_that_is_no_pair_has_no_output() {
    for journal in [vec![], vec![1u8, 2, 3], vec![9u8; 5], vec![0xffu8; 8]] {
        let proof = Proof { image_id: A.to_words(), receipt: unproven_receipt(A, journal) };
        let report = inspect(&proof, &findings(&proof));
        assert!(report.readable);
        assert_eq!(report.output, None);
        assert_eq!(verify_with_engine(&proof), Ok(VerificationOutcome { valid: false, decoded_output: None }));
    }
}

#[test]
fn outcome_follows_the_report() {
    let report = good_report(A, "3", &[1, 2, 3]);
    assert_eq!(
        verification_outcome(report),
        Ok(VerificationOutcome { valid: true, decoded_output: Some(output("3", "{}")) })
    );
    let mut report = good_report(A, "3", &[1, 2, 3]);
    report.valid = false;
    assert_eq!(
        verification_outcome(report),
        Ok(VerificationOutcome { valid: false, decoded_output: None })
    );
    let mut report = good_report(A, "3", &[1, 2, 3]);
    report.output = None;
    assert_eq!(
        verification_outcome(report),
        Ok(VerificationOutcome { valid: true, decoded_output: None })
    );
    let mut report = good_report(A, "3", &[1, 2, 3]);
    report.readable = false;
    assert_eq!(verification_outcome(report), Err(MalformedInput::Receipt));
    let mut report = good_report(A, "3", &[1, 2, 3]);
    report.readable = false;
    report.fingerprint = None;
    assert_eq!(verification_outcome(report), Err(MalformedInput::Fingerprint));
}

#[test]
fn composition_needs_a_receipt() {
    assert_eq!(compose(&[], B), Err(CompositionError::EmptyInput));
    assert_eq!(plan_composition(B, &[]), Err(CompositionError::EmptyInput));
}

#[test]
fn composition_lists_every_receipt_in_order() {
    let reports = vec![good_report(A, "3", &[1, 2, 3]), good_report(B, "4", &[4, 5])];
    let request = plan_composition(B, &reports).unwrap();
    assert_eq!(request.target, B);
    assert_eq!(
        request.inputs,
        vec![
            CompositeProofInput { image_id: A, public_data: output("3", "{}") },
            CompositeProofInput { image_id: B, public_data: output("4", "{}") },
        ]
    );
    assert_eq!(request.assumptions, vec![vec![1u8, 2, 3], vec![4u8, 5]]);
}

#[test]
fn composition_is_a_conjunction() {
    let good = || good_report(A, "3", &[1]);
    let bad = || {
        let mut r = good_report(A, "3", &[1]);
        r.valid = false;
        r
    };
    assert!(plan_composition(B, &[good(), good()]).is_ok());
    assert_eq!(
        plan_composition(B, &[good(), bad()]),
        Err(CompositionError::AssumptionRejected { index: 1 })
    );
    assert_eq!(
        plan_composition(B, &[bad(), good()]),
        Err(CompositionError::AssumptionRejected { index: 0 })
    );
    assert_eq!(
        plan_composition(B, &[bad(), bad()]),
        Err(CompositionError::AssumptionRejected { index: 0 })
    );
    let mut no_output = good();
    no_output.output = None;
    assert_eq!(
        plan_composition(B, &[good(), good(), no_output, bad()]),
        Err(CompositionError::AssumptionRejected { index: 2 })
    );
    let mut no_fingerprint = good();
    no_fingerprint.fingerprint = None;
    assert_eq!(
        plan_composition(B, &[no_fingerprint]),
        Err(CompositionError::AssumptionRejected { index: 0 })
    );
}

#[test]
fn tampered_receipt_is_rejected_as_an_assumption() {
    let receipt = unproven_receipt(A, journal("3", "{}"));
    let mut tampered = receipt.clone();
    let last = tampered.len() - 1;
    tampered[last] ^= 0x80;
    let chain = vec![
        checked(Proof { image_id: A.to_words(), receipt: tampered }),
        checked(Proof { image_id: A.to_words(), receipt }),
    ];
    assert_eq!(compose(&chain, B), Err(CompositionError::AssumptionRejected { index: 0 }));
    let garbage = vec![checked(Proof { image_id: A.to_words(), receipt: vec![0xff; 3] })];
    assert_eq!(compose(&garbage, B), Err(CompositionError::AssumptionRejected { index: 0 }));
    let misshapen = vec![checked(Proof { image_id: vec![1], receipt: vec![] })];
    assert_eq!(compose(&misshapen, B), Err(CompositionError::AssumptionRejected { index: 0 }));
}

#[test]
fn composition_ends_with_the_engines_answer() {
    assert_eq!(
        composition_outcome(&B, Some(vec![1, 2, 3])),
        Ok(Proof { image_id: B.to_words(), receipt: vec![1, 2, 3] })
    );
    assert_eq!(composition_outcome(&B, None), Err(CompositionError::EngineFailure));
}

#[test]
fn journal_is_read_as_little_endian_words() {
    assert_eq!(journal_words(&[]), Some(vec![]));
    assert_eq!(journal_words(&[1, 0, 0, 0, 0, 1, 0, 0]), Some(vec![1, 256]));
    assert_eq!(journal_words(&[0x78, 0x56, 0x34, 0x12]), Some(vec![0x1234_5678]));
    assert_eq!(journal_words(&[0xff, 0xff, 0xff, 0xff]), Some(vec![0xffff_ffff]));
    assert_eq!(journal_words(&[1, 2, 3]), None);
    assert_eq!(journal_words(&[1, 2, 3, 4, 5]), None);
}

#[test]
fn framing_of_a_pair_is_checked_before_decoding() {
    assert!(is_framed_pair(&[0, 0]));
    assert!(is_framed_pair(&[2, 0x6261, 1, 0x63]));
    assert!(is_framed_pair(&[4, 0x6461_6261, 5, 0x6461_6261, 0x65]));
    assert!(is_framed_pair(&[0, 0, 77]));
    assert!(!is_framed_pair(&[]));
    assert!(!is_framed_pair(&[0]));
    assert!(!is_framed_pair(&[1, 0x61]));
    assert!(!is_framed_pair(&[5, 0x6461_6261, 0]));
    assert!(!is_framed_pair(&[0, 1]));
    assert!(!is_framed_pair(&[0, 5, 0x6461_6261]));
    assert!(!is_framed_pair(&[0xffff_ffff, 0xffff_ffff]));
    assert!(!is_framed_pair(&[0, 0xffff_ffff, 0, 0]));
}

#[test]
fn journal_decodes_to_the_pair_that_was_written() {
    assert_eq!(decode_journal(&journal("3", "{}")), Some(output("3", "{}")));
    assert_eq!(decode_journal(&journal("", "")), Some(output("", "")));
    assert_eq!(
        decode_journal(&journal("twelve bytes", "m\u{e9}tadonn\u{e9}es")),
        Some(output("twelve bytes", "m\u{e9}tadonn\u{e9}es"))
    );
    assert_eq!(decode_journal(&[]), None);
    assert_eq!(decode_journal(&[0xff; 8]), None);
    assert_eq!(decode_journal(&[1, 0, 0, 0, 0xff, 0, 0, 0, 0, 0, 0, 0]), None);
    let mut longer = journal("3", "{}");
    longer.extend_from_slice(&[9, 9, 9, 9]);
    assert_eq!(decode_journal(&longer), Some(output("3", "{}")));
}

#[test]
fn decoded_pair_becomes_the_public_output() {
    assert_eq!(
        disclosed_output(Ok((String::from("3"), String::from("{}")))),
        Some(output("3", "{}"))
    );
    assert_eq!(
        disclosed_output(Ok((String::from("meta"), String::from("result")))),
        Some(output("meta", "result"))
    );
    assert_eq!(disclosed_output(Err(risc0_zkvm::serde::Error::DeserializeUnexpectedEnd)), None);
    assert_eq!(disclosed_output(Err(risc0_zkvm::serde::Error::DeserializeBadUtf8)), None);
}

#[test]
fn journal_with_a_string_that_is_no_text_has_no_output() {
    assert_eq!(decode_journal(&[1, 0, 0, 0, 0xff, 0, 0, 0, 0, 0, 0, 0]), None);
    assert_eq!(
        decode_journal(&[1, 0, 0, 0, 0x61, 0, 0, 0, 2, 0, 0, 0, 0xc3, 0x28, 0, 0]),
        None
    );
    assert_eq!(
        decode_journal(&[1, 0, 0, 0, 0x61, 0, 0, 0, 2, 0, 0, 0, 0xc3, 0xa9, 0, 0]),
        Some(output("a", "\u{e9}"))
    );
}

#[test]
fn verdict_is_the_engines_where_the_proof_is_well_shaped() {
    let proof = Proof { image_id: A.to_words(), receipt: vec![1, 2, 3] };
    let held = EngineFindings { readable: true, verified: true, journal: journal("7", "m") };
    assert_eq!(
        verify(&proof, &held),
        Ok(VerificationOutcome { valid: true, decoded_output: Some(output("7", "m")) })
    );
    let not_held = EngineFindings { readable: true, verified: false, journal: journal("7", "m") };
    assert_eq!(
        verify(&proof, &not_held),
        Ok(VerificationOutcome { valid: false, decoded_output: None })
    );
    let silent = EngineFindings { readable: true, verified: true, journal: vec![1, 2] };
    assert_eq!(
        verify(&proof, &silent),
        Ok(VerificationOutcome { valid: true, decoded_output: None })
    );
    let unreadable = EngineFindings { readable: false, verified: true, journal: journal("7", "m") };
    assert_eq!(verify(&proof, &unreadable), Err(MalformedInput::Receipt));
    let report = inspect(&proof, &unreadable);
    assert!(!report.valid);
    assert_eq!(report.output, None);
    let misshapen = Proof { image_id: vec![1, 2], receipt: vec![1, 2, 3] };
    assert_eq!(verify(&misshapen, &held), Err(MalformedInput::Fingerprint));
    assert!(!inspect(&misshapen, &held).valid);
}

#[test]
fn composition_of_checked_proofs_is_planned() {
    let chain = vec![
        Submission {
            proof: Proof { image_id: A.to_words(), receipt: vec![1] },
            findings: EngineFindings { readable: true, verified: true, journal: journal("3", "x") },
        },
        Submission {
            proof: Proof { image_id: B.to_words(), receipt: vec![2, 2] },
            findings: EngineFindings { readable: true, verified: true, journal: journal("4", "y") },
        },
    ];
    let request = compose(&chain, B).unwrap();
    assert_eq!(request.target, B);
    assert_eq!(
        request.inputs,
        vec![
            CompositeProofInput { image_id: A, public_data: output("3", "x") },
            CompositeProofInput { image_id: B, public_data: output("4", "y") },
        ]
    );
    assert_eq!(request.assumptions, vec![vec![1u8], vec![2u8, 2]]);
    let mut broken = chain.clone();
    broken[1].findings.verified = false;
    assert_eq!(compose(&broken, B), Err(CompositionError::AssumptionRejected { index: 1 }));
}
